//! A header accumulator that keeps builder methods infallible.
//!
//! Header names and values are validated eagerly; an invalid one is recorded and
//! surfaced when the request is built, mirroring how a request builder defers its
//! error to `send`. Names are stored in their normalized (lowercase) form; setting
//! a name again replaces its value in place.

use vstd::prelude::*;
use vstd::string::StringExecFns;
use vstd::utf8::encode_utf8;

use crate::error::Error;
use crate::render::{concat, debug_str, str_debug};

verus! {

/// The longest header name accepted.
pub const MAX_HEADER_NAME_LEN: usize = 65535;

/// Whether `b` may appear in a header name: an RFC 7230 `tchar` (letters, digits,
/// and `` !#$%&'*+-.^_`|~ ``).
pub open spec fn is_token_byte(b: u8) -> bool {
    ||| 48 <= b <= 57
    ||| 65 <= b <= 90
    ||| 97 <= b <= 122
    ||| b == 33 || b == 35 || b == 36 || b == 37 || b == 38 || b == 39
    ||| b == 42 || b == 43 || b == 45 || b == 46
    ||| b == 94 || b == 95 || b == 96 || b == 124 || b == 126
}

/// `b` with ASCII uppercase letters mapped to lowercase.
pub open spec fn lower_byte(b: u8) -> u8 {
    if 65 <= b <= 90 {
        (b + 32) as u8
    } else {
        b
    }
}

/// Whether `bytes` form a valid header name: one to 65535 token bytes.
pub open spec fn header_name_valid(bytes: Seq<u8>) -> bool {
    &&& 1 <= bytes.len() <= MAX_HEADER_NAME_LEN
    &&& forall|i: int| 0 <= i < bytes.len() ==> is_token_byte(#[trigger] bytes[i])
}

/// The normalized text of a valid header name: its bytes in lowercase.
pub open spec fn normalized_name(bytes: Seq<u8>) -> Seq<char> {
    Seq::new(bytes.len(), |i: int| lower_byte(bytes[i]) as char)
}

/// Whether `b` may appear in a header value: any byte from 32 up except DEL (127),
/// and horizontal tab.
pub open spec fn is_value_byte(b: u8) -> bool {
    (b >= 32 && b != 127) || b == 9
}

/// Whether `bytes` form a valid header value.
pub open spec fn header_value_valid(bytes: Seq<u8>) -> bool {
    forall|i: int| 0 <= i < bytes.len() ==> is_value_byte(#[trigger] bytes[i])
}

/// Parses a header name with `http::HeaderName::from_bytes`, giving its normalized
/// text.
///
/// Trusted: `from_bytes` accepts exactly one to 65535 token bytes and normalizes
/// them to lowercase, and its error renders as `invalid HTTP header name`.
#[verifier::external_body]
fn parse_header_name(name: &str) -> (r: core::result::Result<String, String>)
    ensures
        r is Ok <==> header_name_valid(encode_utf8(name@)),
        r matches Ok(n) ==> n@ == normalized_name(encode_utf8(name@)),
        r matches Err(e) ==> e@ == "invalid HTTP header name"@,
{
    match http::HeaderName::from_bytes(name.as_bytes()) {
        Ok(n) => Ok(n.as_str().to_owned()),
        Err(e) => Err(e.to_string()),
    }
}

/// Checks a header value with `http::HeaderValue::from_str`.
///
/// Trusted: `from_str` accepts exactly the strings whose bytes are all header
/// value bytes (32 and up except 127, and tab), and its error renders as
/// `failed to parse header value`.
#[verifier::external_body]
pub(crate) fn check_header_value(value: &str) -> (r: core::result::Result<(), String>)
    ensures
        r is Ok <==> header_value_valid(encode_utf8(value@)),
        r matches Err(e) ==> e@ == "failed to parse header value"@,
{
    match http::HeaderValue::from_str(value) {
        Ok(_) => Ok(()),
        Err(e) => Err(e.to_string()),
    }
}

/// The header list after setting `name` to `value`: an entry with that name has its
/// value replaced in place; otherwise the entry is appended.
pub open spec fn set_entry(entries: Seq<(Seq<char>, Seq<char>)>, name: Seq<char>, value: Seq<char>) -> Seq<
    (Seq<char>, Seq<char>),
> {
    if exists|i: int| 0 <= i < entries.len() && (#[trigger] entries[i]).0 == name {
        let i = choose|i: int| 0 <= i < entries.len() && (#[trigger] entries[i]).0 == name;
        entries.update(i, (name, value))
    } else {
        entries.push((name, value))
    }
}

/// The message recorded for an invalid header name.
pub open spec fn invalid_name_message(name: Seq<char>) -> Seq<char> {
    str_debug(name) + ": "@ + "invalid HTTP header name"@
}

/// The message recorded for an invalid value of a (normalized) header name.
pub open spec fn invalid_value_message(normalized: Seq<char>) -> Seq<char> {
    normalized + ": "@ + "failed to parse header value"@
}

/// What inserting `name: value` does to a header list that has recorded no error:
/// the new list, or the message recorded for an invalid name or value.
pub open spec fn insert_spec(
    entries: Seq<(Seq<char>, Seq<char>)>,
    name: Seq<char>,
    value: Seq<char>,
) -> core::result::Result<Seq<(Seq<char>, Seq<char>)>, Seq<char>> {
    if !header_name_valid(encode_utf8(name)) {
        Err(invalid_name_message(name))
    } else if !header_value_valid(encode_utf8(value)) {
        Err(invalid_value_message(normalized_name(encode_utf8(name))))
    } else {
        Ok(set_entry(entries, normalized_name(encode_utf8(name)), value))
    }
}

/// The text of each entry of a header list.
pub open spec fn entry_texts(entries: Seq<(String, String)>) -> Seq<(Seq<char>, Seq<char>)> {
    entries.map_values(|e: (String, String)| (e.0@, e.1@))
}

/// Whether every byte of the UTF-8 encoding of `s` is visible ASCII (32 to 126)
/// or a tab.
pub open spec fn is_visible_ascii(s: Seq<char>) -> bool {
    forall|i: int|
        0 <= i < encode_utf8(s).len() ==> ((32 <= #[trigger] encode_utf8(s)[i] < 127)
            || encode_utf8(s)[i] == 9)
}

/// The value of the `x-request-id` entry of a header list, when there is one and
/// it is visible ASCII.
pub open spec fn request_id_of(entries: Seq<(Seq<char>, Seq<char>)>) -> Option<Seq<char>> {
    if exists|i: int| 0 <= i < entries.len() && (#[trigger] entries[i]).0 == "x-request-id"@ {
        let i = choose|i: int| 0 <= i < entries.len() && (#[trigger] entries[i]).0 == "x-request-id"@;
        if is_visible_ascii(entries[i].1) {
            Some(entries[i].1)
        } else {
            None
        }
    } else {
        None
    }
}

/// The text of an optional string slice.
pub open spec fn opt_str_view(s: Option<&str>) -> Option<Seq<char>> {
    match s {
        Some(t) => Some(t@),
        None => None,
    }
}

/// Whether no two entries of a list share a name.
pub open spec fn names_distinct(entries: Seq<(Seq<char>, Seq<char>)>) -> bool {
    forall|i: int, j: int|
        0 <= i < entries.len() && 0 <= j < entries.len() && i != j ==> (#[trigger] entries[i]).0
            != (#[trigger] entries[j]).0
}

/// Setting a name in a list whose names are distinct keeps them distinct, and
/// leaves exactly one entry with that name, holding the value set.
pub proof fn lemma_set_entry(es: Seq<(Seq<char>, Seq<char>)>, name: Seq<char>, value: Seq<char>)
    requires
        names_distinct(es),
    ensures
        names_distinct(set_entry(es, name, value)),
        exists|i: int|
            0 <= i < set_entry(es, name, value).len() && #[trigger] set_entry(es, name, value)[i]
                == (name, value),
        forall|i: int|
            0 <= i < set_entry(es, name, value).len() && (#[trigger] set_entry(
                es,
                name,
                value,
            )[i]).0 == name ==> set_entry(es, name, value)[i].1 == value,
        forall|i: int|
            0 <= i < es.len() && (#[trigger] es[i]).0 != name ==> set_entry(es, name, value)[i]
                == es[i],
        set_entry(es, name, value).len() == es.len() || set_entry(es, name, value).len()
            == es.len() + 1,
{
    let ne = set_entry(es, name, value);
    if exists|i: int| 0 <= i < es.len() && (#[trigger] es[i]).0 == name {
        let k = choose|i: int| 0 <= i < es.len() && (#[trigger] es[i]).0 == name;
        assert(ne == es.update(k, (name, value)));
        assert(ne[k] == (name, value));
        assert forall|a: int, b: int|
            0 <= a < ne.len() && 0 <= b < ne.len() && a != b implies (#[trigger] ne[a]).0 != (
            #[trigger] ne[b]).0 by {
            if a != k && b != k {
                assert(es[a].0 != es[b].0);
            } else if a == k {
                assert(es[k].0 != es[b].0);
            } else {
                assert(es[a].0 != es[k].0);
            }
        }
        assert forall|i: int| 0 <= i < ne.len() && (#[trigger] ne[i]).0 == name implies ne[i].1
            == value by {
            if i != k {
                assert(es[i].0 != es[k].0);
            }
        }
    } else {
        assert(ne == es.push((name, value)));
        assert(ne[es.len() as int] == (name, value));
        assert forall|a: int, b: int|
            0 <= a < ne.len() && 0 <= b < ne.len() && a != b implies (#[trigger] ne[a]).0 != (
            #[trigger] ne[b]).0 by {
            if a < es.len() && b < es.len() {
                assert(es[a].0 != es[b].0);
            } else if a < es.len() {
                assert(es[a].0 != name);
            } else {
                assert(es[b].0 != name);
            }
        }
        assert forall|i: int| 0 <= i < ne.len() && (#[trigger] ne[i]).0 == name implies ne[i].1
            == value by {
            if i < es.len() {
                assert(es[i].0 != name);
            }
        }
    }
}

/// The headers and recorded failure after inserting `name: value` into headers
/// `es` with recorded failure `err`: what [`Headers::insert`] does.
pub open spec fn inserted(
    es: Seq<(Seq<char>, Seq<char>)>,
    err: Option<Seq<char>>,
    name: Seq<char>,
    value: Seq<char>,
) -> (Seq<(Seq<char>, Seq<char>)>, Option<Seq<char>>) {
    match err {
        Some(_) => (es, err),
        None => match insert_spec(es, name, value) {
            Ok(new_es) => (new_es, None),
            Err(m) => (es, Some(m)),
        },
    }
}

/// The headers and recorded failure after inserting each of `new` in order: what
/// [`Headers::insert_all`], or one [`Headers::insert`] per pair, does.
pub open spec fn inserted_all(
    es: Seq<(Seq<char>, Seq<char>)>,
    err: Option<Seq<char>>,
    new: Seq<(Seq<char>, Seq<char>)>,
) -> (Seq<(Seq<char>, Seq<char>)>, Option<Seq<char>>)
    decreases new.len(),
{
    if new.len() == 0 {
        (es, err)
    } else {
        let before = inserted_all(es, err, new.drop_last());
        inserted(before.0, before.1, new.last().0, new.last().1)
    }
}

/// Inserting headers `new` then `h` all at once is inserting `new`, then `h` on its
/// own: adding several headers is adding each in turn (and adding none changes
/// nothing, by the definition of `inserted_all`).
pub proof fn lemma_inserted_all_push(
    es: Seq<(Seq<char>, Seq<char>)>,
    err: Option<Seq<char>>,
    new: Seq<(Seq<char>, Seq<char>)>,
    h: (Seq<char>, Seq<char>),
)
    ensures
        inserted_all(es, err, new.push(h)) == ({
            let before = inserted_all(es, err, new);
            inserted(before.0, before.1, h.0, h.1)
        }),
{
    assert(new.push(h).drop_last() =~= new);
}

/// Once a header failure is recorded, inserting more headers, valid or not,
/// changes neither the headers nor the failure: the headers stay as they were
/// before the first invalid insert, and the failure that `apply` and `into_map`
/// report is that insert's.
pub proof fn lemma_first_failure_is_kept(
    es: Seq<(Seq<char>, Seq<char>)>,
    m: Seq<char>,
    new: Seq<(Seq<char>, Seq<char>)>,
)
    ensures
        inserted_all(es, Some(m), new) == (es, Some(m)),
    decreases new.len(),
{
    if new.len() > 0 {
        lemma_first_failure_is_kept(es, m, new.drop_last());
    }
}

/// The headers a request goes out with: the client's `defaults`, with each
/// per-call header set over them in order, so that a per-call header replaces a
/// default of the same name.
pub open spec fn effective_headers(
    defaults: Seq<(Seq<char>, Seq<char>)>,
    per_call: Seq<(Seq<char>, Seq<char>)>,
) -> Seq<(Seq<char>, Seq<char>)>
    decreases per_call.len(),
{
    if per_call.len() == 0 {
        defaults
    } else {
        set_entry(
            effective_headers(defaults, per_call.drop_last()),
            per_call.last().0,
            per_call.last().1,
        )
    }
}

/// The normalized text of a header name is the name with each ASCII uppercase
/// letter made lowercase and every other byte kept: same length, same bytes but
/// for case.
pub proof fn lemma_normalized_name_lowercases(bytes: Seq<u8>)
    ensures
        normalized_name(bytes).len() == bytes.len(),
        forall|i: int|
            0 <= i < bytes.len() && 65 <= bytes[i] <= 90 ==> #[trigger] normalized_name(bytes)[i]
                == ((bytes[i] + 32) as u8) as char,
        forall|i: int|
            0 <= i < bytes.len() && !(65 <= bytes[i] <= 90) ==> #[trigger] normalized_name(
                bytes,
            )[i] == bytes[i] as char,
{
}

/// Inserting `name: value` into headers whose names are distinct succeeds exactly
/// when the name and the value are valid. Then the headers hold the normalized
/// name with exactly `value`, whole and unchanged, as its only entry of that name;
/// every other header keeps its place and value; and names stay distinct.
pub proof fn lemma_insert_stores_the_value(
    es: Seq<(Seq<char>, Seq<char>)>,
    name: Seq<char>,
    value: Seq<char>,
)
    requires
        names_distinct(es),
    ensures
        insert_spec(es, name, value) is Ok <==> header_name_valid(encode_utf8(name))
            && header_value_valid(encode_utf8(value)),
        insert_spec(es, name, value) matches Ok(es2) ==> {
            &&& names_distinct(es2)
            &&& exists|i: int|
                0 <= i < es2.len() && #[trigger] es2[i] == (
                    normalized_name(encode_utf8(name)),
                    value,
                )
            &&& forall|i: int|
                0 <= i < es2.len() && (#[trigger] es2[i]).0 == normalized_name(encode_utf8(name))
                    ==> es2[i].1 == value
            &&& forall|i: int|
                0 <= i < es.len() && (#[trigger] es[i]).0 != normalized_name(encode_utf8(name))
                    ==> es2[i] == es[i]
        },
{
    if header_name_valid(encode_utf8(name)) && header_value_valid(encode_utf8(value)) {
        lemma_set_entry(es, normalized_name(encode_utf8(name)), value);
    }
}

/// Accumulated per-request headers, plus the first validation error if any.
#[derive(Debug)]
pub struct Headers {
    entries: Vec<(String, String)>,
    error: Option<String>,
}

impl Headers {
    /// The accumulated headers, as (normalized name, value) pairs in the order
    /// their names were first set.
    pub closed spec fn entries(&self) -> Seq<(Seq<char>, Seq<char>)> {
        entry_texts(self.entries@)
    }

    /// The first validation error recorded, if any.
    pub closed spec fn error(&self) -> Option<Seq<char>> {
        match self.error {
            Some(e) => Some(e@),
            None => None,
        }
    }

    /// The accumulator's invariant: names are distinct.
    #[verifier::type_invariant]
    closed spec fn wf(&self) -> bool {
        names_distinct(entry_texts(self.entries@))
    }

    /// An empty accumulator.
    pub fn new() -> (r: Headers)
        ensures
            r.entries() == Seq::<(Seq<char>, Seq<char>)>::empty(),
            r.error() is None,
    {
        let r = Headers { entries: Vec::new(), error: None };
        assert(r.entries() =~= Seq::<(Seq<char>, Seq<char>)>::empty());
        r
    }

    /// Sets `name` (already normalized) to `value`, replacing an existing entry.
    pub(crate) fn set(&mut self, name: String, value: String)
        ensures
            final(self).entries() == set_entry(old(self).entries(), name@, value@),
            final(self).error() == old(self).error(),
    {
        proof {
            use_type_invariant(&*self);
        }
        let ghost es = self.entries();
        let mut i: usize = 0;
        while i < self.entries.len()
            invariant
                i <= self.entries@.len(),
                self.entries() == es,
                es == old(self).entries(),
                names_distinct(es),
                self.error() == old(self).error(),
                forall|j: int| 0 <= j < i ==> (#[trigger] es[j]).0 != name@,
            decreases self.entries@.len() - i,
        {
            if self.entries[i].0 == name {
                let ghost nm = name@;
                let ghost v = value@;
                assert(es[i as int].0 == nm);
                let mut entries: Vec<(String, String)> = Vec::new();
                std::mem::swap(&mut entries, &mut self.entries);
                entries.set(i, (name, value));
                proof {
                    let k = choose|k: int| 0 <= k < es.len() && (#[trigger] es[k]).0 == nm;
                    assert(k == i as int) by {
                        if k != i as int {
                            assert(es[k].0 != es[i as int].0);
                        }
                    }
                    assert(entry_texts(entries@) =~= set_entry(es, nm, v));
                    lemma_set_entry(es, nm, v);
                }
                self.entries = entries;
                return;
            }
            i = i + 1;
        }
        let ghost nm = name@;
        let ghost v = value@;
        let mut entries: Vec<(String, String)> = Vec::new();
        std::mem::swap(&mut entries, &mut self.entries);
        entries.push((name, value));
        assert(entry_texts(entries@) =~= es.push((nm, v)));
        assert(!(exists|j: int| 0 <= j < es.len() && (#[trigger] es[j]).0 == nm));
        proof {
            lemma_set_entry(es, nm, v);
        }
        self.entries = entries;
    }

    /// Validates and inserts a header, recording the first failure rather than
    /// failing. Once a failure is recorded, further inserts change nothing.
    pub fn insert(&mut self, name: &str, value: &str)
        ensures
            (final(self).entries(), final(self).error()) == inserted(
                old(self).entries(),
                old(self).error(),
                name@,
                value@,
            ),
    {
        proof {
            use_type_invariant(&*self);
        }
        if self.error.is_some() {
            return;
        }
        match parse_header_name(name) {
            Err(e) => {
                let d = debug_str(name);
                let m = concat(d.as_str(), ": ");
                self.error = Some(concat(m.as_str(), e.as_str()));
            },
            Ok(n) => match check_header_value(value) {
                Ok(()) => {
                    self.set(n, value.to_owned());
                },
                Err(e) => {
                    let m = concat(n.as_str(), ": ");
                    self.error = Some(concat(m.as_str(), e.as_str()));
                },
            },
        }
    }

    /// Validates and inserts each of `pairs`, in order, as `insert` does.
    pub fn insert_all(&mut self, pairs: &Vec<(String, String)>)
        ensures
            (final(self).entries(), final(self).error()) == inserted_all(
                old(self).entries(),
                old(self).error(),
                entry_texts(pairs@),
            ),
    {
        let ghost es0 = self.entries();
        let ghost err0 = self.error();
        let mut i: usize = 0;
        while i < pairs.len()
            invariant
                i <= pairs@.len(),
                es0 == old(self).entries(),
                err0 == old(self).error(),
                (self.entries(), self.error()) == inserted_all(
                    es0,
                    err0,
                    entry_texts(pairs@).take(i as int),
                ),
            decreases pairs@.len() - i,
        {
            let ghost prev = entry_texts(pairs@).take(i as int);
            let ghost h = (pairs@[i as int].0@, pairs@[i as int].1@);
            self.insert(pairs[i].0.as_str(), pairs[i].1.as_str());
            proof {
                lemma_inserted_all_push(es0, err0, prev, h);
            }
            i = i + 1;
            assert(entry_texts(pairs@).take(i as int) =~= prev.push(h));
        }
        assert(entry_texts(pairs@).take(i as int) =~= entry_texts(pairs@));
    }

    /// The headers a request goes out with: `defaults` with these headers set over
    /// them, or an `InvalidRequest` error carrying the recorded failure (`invalid
    /// header <failure>`).
    pub fn apply_over(&self, defaults: &Headers) -> (r: core::result::Result<
        Vec<(String, String)>,
        Error,
    >)
        ensures
            match self.error() {
                Some(m) => r matches Err(Error::InvalidRequest { message: msg, source: None })
                    && msg@ == "invalid header "@ + m,
                None => r matches Ok(es) && entry_texts(es@) == effective_headers(
                    defaults.entries(),
                    self.entries(),
                ),
            },
            r matches Ok(es) ==> names_distinct(entry_texts(es@)),
    {
        if let Some(error) = &self.error {
            return Err(Error::invalid_message(concat("invalid header ", error.as_str())));
        }
        let ghost own = self.entries();
        let mut h = defaults.clone();
        let mut i: usize = 0;
        while i < self.entries.len()
            invariant
                i <= self.entries@.len(),
                own == self.entries(),
                own == entry_texts(self.entries@),
                h.entries() == effective_headers(defaults.entries(), own.take(i as int)),
            decreases self.entries@.len() - i,
        {
            let name = self.entries[i].0.clone();
            let value = self.entries[i].1.clone();
            let ghost prev = own.take(i as int);
            h.set(name, value);
            i = i + 1;
            assert(own.take(i as int).drop_last() =~= prev);
        }
        assert(own.take(i as int) =~= own);
        Ok(h.to_vec())
    }

    /// The value of the `x-request-id` header, when one is set and is visible
    /// ASCII, for correlating requests in traces.
    pub fn request_id(&self) -> (r: Option<&str>)
        ensures
            opt_str_view(r) == request_id_of(self.entries()),
    {
        proof {
            use_type_invariant(self);
        }
        let ghost es = self.entries();
        let key = "x-request-id";
        proof {
            reveal_strlit("x-request-id");
        }
        let mut i: usize = 0;
        while i < self.entries.len()
            invariant
                i <= self.entries@.len(),
                key@ == "x-request-id"@,
                es == self.entries(),
                names_distinct(es),
                forall|j: int| 0 <= j < i ==> (#[trigger] es[j]).0 != "x-request-id"@,
            decreases self.entries@.len() - i,
        {
            let name: &str = self.entries[i].0.as_str();
            if str_eq(name, key) {
                let v: &str = self.entries[i].1.as_str();
                proof {
                    assert(es[i as int].0 == "x-request-id"@);
                    let k = choose|k: int| 0 <= k < es.len() && (#[trigger] es[k]).0 == "x-request-id"@;
                    assert(k == i as int) by {
                        if k != i as int {
                            assert(es[k].0 != es[i as int].0);
                        }
                    }
                    assert(es[i as int].1 == v@);
                }
                if visible_ascii(v) {
                    return Some(v);
                }
                return None;
            }
            i = i + 1;
        }
        None
    }

    /// The accumulated headers, whether or not a failure was recorded.
    pub fn to_vec(&self) -> (r: Vec<(String, String)>)
        ensures
            entry_texts(r@) == self.entries(),
            names_distinct(entry_texts(r@)),
    {
        proof {
            use_type_invariant(self);
        }
        copy_entries(&self.entries)
    }

    /// The accumulated headers, or an `InvalidRequest` error carrying the recorded
    /// failure (`invalid header <failure>`).
    pub fn apply(&self) -> (r: core::result::Result<Vec<(String, String)>, Error>)
        ensures
            match self.error() {
                Some(m) => r matches Err(Error::InvalidRequest { message: msg, source: None })
                    && msg@ == "invalid header "@ + m,
                None => r matches Ok(es) && entry_texts(es@) == self.entries(),
            },
            r matches Ok(es) ==> names_distinct(entry_texts(es@)),
    {
        proof {
            use_type_invariant(self);
        }
        match &self.error {
            Some(error) => Err(Error::invalid_message(concat("invalid header ", error.as_str()))),
            None => Ok(copy_entries(&self.entries)),
        }
    }

    /// Consumes the accumulator into its headers, or the recorded failure as an
    /// `InvalidRequest` error.
    pub fn into_map(self) -> (r: core::result::Result<Vec<(String, String)>, Error>)
        ensures
            match self.error() {
                Some(m) => r matches Err(Error::InvalidRequest { message: msg, source: None })
                    && msg@ == "invalid header "@ + m,
                None => r matches Ok(es) && entry_texts(es@) == self.entries(),
            },
            r matches Ok(es) ==> names_distinct(entry_texts(es@)),
    {
        proof {
            use_type_invariant(&self);
        }
        match self.error {
            Some(error) => Err(Error::invalid_message(concat("invalid header ", error.as_str()))),
            None => Ok(self.entries),
        }
    }
}

impl Clone for Headers {
    /// A copy holding the same headers and recorded error.
    fn clone(&self) -> (r: Headers)
        ensures
            r.entries() == self.entries(),
            r.error() == self.error(),
    {
        proof {
            use_type_invariant(self);
        }
        let error = match &self.error {
            Some(e) => Some(e.clone()),
            None => None,
        };
        Headers { entries: copy_entries(&self.entries), error }
    }
}

/// A copy of a header list.
fn copy_entries(entries: &Vec<(String, String)>) -> (r: Vec<(String, String)>)
    ensures
        entry_texts(r@) == entry_texts(entries@),
{
    let mut r: Vec<(String, String)> = Vec::new();
    let mut i: usize = 0;
    while i < entries.len()
        invariant
            i <= entries@.len(),
            entry_texts(r@) == entry_texts(entries@).take(i as int),
        decreases entries@.len() - i,
    {
        let name = entries[i].0.clone();
        let value = entries[i].1.clone();
        let ghost before = r@;
        r.push((name, value));
        assert(entry_texts(r@) =~= entry_texts(before).push((entries@[i as int].0@, entries@[i as int].1@)));
        i = i + 1;
        assert(entry_texts(r@) =~= entry_texts(entries@).take(i as int));
    }
    assert(entry_texts(entries@).take(i as int) =~= entry_texts(entries@));
    r
}

/// Whether two strings are equal.
pub(crate) fn str_eq(a: &str, b: &str) -> (r: bool)
    ensures
        r == (a@ == b@),
{
    let a = a.to_owned();
    let b = b.to_owned();
    a == b
}

/// Whether every byte of `s` is visible ASCII (32 to 126) or a tab.
fn visible_ascii(s: &str) -> (r: bool)
    ensures
        r == is_visible_ascii(s@),
{
    let bytes = s.as_bytes();
    let mut i: usize = 0;
    while i < bytes.len()
        invariant
            i <= bytes@.len(),
            bytes@ == encode_utf8(s@),
            forall|j: int| 0 <= j < i ==> ((32 <= #[trigger] bytes@[j] < 127) || bytes@[j] == 9),
        decreases bytes@.len() - i,
    {
        let b = bytes[i];
        if !((32 <= b && b < 127) || b == 9) {
            return false;
        }
        i = i + 1;
    }
    true
}

} // verus!
