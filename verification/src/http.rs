//! The parts of an HTTP exchange that the rewriting reads and sets: the
//! method, the path, the header fields, the status and the body.

use vstd::prelude::*;
use vstd::std_specs::iter::IteratorSpec;
use vstd::string::StringExecFns;

verus! {

broadcast use vstd::string::group_string_axioms;

/// The request methods that are told apart.
#[derive(Clone, Copy, Debug, PartialEq, Eq, Structural)]
pub enum Method {
    Get,
    Head,
    Other,
}

/// A character with an ASCII capital letter turned into its small letter.
pub open spec fn ascii_lower(c: char) -> char {
    if 'A' <= c && c <= 'Z' {
        ((c as u8) + 32) as char
    } else {
        c
    }
}

/// Whether two header names are the same name: header names do not tell
/// capital from small ASCII letters.
pub open spec fn same_name(a: Seq<char>, b: Seq<char>) -> bool {
    &&& a.len() == b.len()
    &&& forall|i: int| 0 <= i < a.len() ==> ascii_lower(#[trigger] a[i]) == ascii_lower(b[i])
}

/// Turns an ASCII capital letter into its small letter.
pub fn to_ascii_lower(c: char) -> (out: char)
    ensures
        out == ascii_lower(c),
{
    if 'A' <= c && c <= 'Z' {
        ((c as u8) + 32) as char
    } else {
        c
    }
}

/// Compares two header names without regard to the case of ASCII letters.
pub fn names_match(a: &str, b: &str) -> (same: bool)
    ensures
        same == same_name(a@, b@),
{
    let mut left = a.chars();
    let mut right = b.chars();
    let ghost mut seen: int = 0;
    loop
        invariant
            0 <= seen <= a@.len(),
            seen <= b@.len(),
            left.remaining() == a@.skip(seen),
            right.remaining() == b@.skip(seen),
            forall|i: int| 0 <= i < seen ==> ascii_lower(#[trigger] a@[i]) == ascii_lower(b@[i]),
        decreases a@.len() - seen,
    {
        let x = left.next();
        let y = right.next();
        match (x, y) {
            (Some(p), Some(q)) => {
                assert(p == a@[seen] && q == b@[seen]);
                if to_ascii_lower(p) != to_ascii_lower(q) {
                    return false;
                }
                proof {
                    assert(a@.skip(seen).drop_first() == a@.skip(seen + 1));
                    assert(b@.skip(seen).drop_first() == b@.skip(seen + 1));
                    seen = seen + 1;
                }
            },
            (None, None) => {
                assert(a@.skip(seen).len() == 0 && b@.skip(seen).len() == 0);
                return true;
            },
            _ => {
                assert(a@.skip(seen).len() != b@.skip(seen).len());
                return false;
            },
        }
    }
}

/// One header field.
#[derive(Clone, Debug, PartialEq, Eq)]
pub struct Header {
    pub name: String,
    pub value: String,
}

/// What a `Header` is to a contract.
pub struct HeaderView {
    pub name: Seq<char>,
    pub value: Seq<char>,
}

impl View for Header {
    type V = HeaderView;

    open spec fn view(&self) -> HeaderView {
        HeaderView { name: self.name@, value: self.value@ }
    }
}

/// The header fields of a request or a response, in order.
#[derive(Clone, Debug, PartialEq, Eq)]
pub struct Headers {
    pub fields: Vec<Header>,
}

impl View for Headers {
    type V = Seq<HeaderView>;

    open spec fn view(&self) -> Seq<HeaderView> {
        self.fields@.map_values(|field: Header| field@)
    }
}

/// The value of the first field of that name, if there is one.
pub open spec fn first_value(fields: Seq<HeaderView>, name: Seq<char>) -> Option<Seq<char>>
    decreases fields.len(),
{
    if fields.len() == 0 {
        None
    } else if same_name(fields[0].name, name) {
        Some(fields[0].value)
    } else {
        first_value(fields.drop_first(), name)
    }
}

/// The fields with one name set to one value: every field of that name is
/// gone, and a single field with the name and the value stands at the end.
pub open spec fn with_field(fields: Seq<HeaderView>, name: Seq<char>, value: Seq<char>) -> Seq<
    HeaderView,
> {
    fields.filter(|field: HeaderView| !same_name(field.name, name)).push(
        HeaderView { name, value },
    )
}

impl Headers {
    /// No fields.
    pub fn new() -> (out: Headers)
        ensures
            out@ == Seq::<HeaderView>::empty(),
    {
        let out = Headers { fields: Vec::new() };
        assert(out@ =~= Seq::<HeaderView>::empty());
        out
    }

    /// The value of the first field of that name.
    pub fn get(&self, name: &str) -> (out: Option<&str>)
        ensures
            match out {
                Some(value) => first_value(self@, name@) == Some(value@),
                None => first_value(self@, name@) is None,
            },
    {
        let n = self.fields.len();
        let mut i: usize = 0;
        assert(self@.skip(0) == self@);
        while i < n
            invariant
                n == self.fields.len(),
                i <= n,
                first_value(self@, name@) == first_value(self@.skip(i as int), name@),
            decreases n - i,
        {
            let field = &self.fields[i];
            proof {
                let rest = self@.skip(i as int);
                assert(rest[0] == field@);
                assert(rest.drop_first() == self@.skip(i + 1));
            }
            if names_match(field.name.as_str(), name) {
                return Some(field.value.as_str());
            }
            i += 1;
        }
        assert(self@.skip(n as int).len() == 0);
        None
    }

    /// Sets a name to a value: whatever fields had the name are dropped, and
    /// one field with the name and the value is put at the end.
    pub fn set(&mut self, name: &str, value: &str)
        ensures
            final(self)@ == with_field(old(self)@, name@, value@),
    {
        let ghost before = self@;
        let ghost other = |field: HeaderView| !same_name(field.name, name@);
        let mut kept: Vec<Header> = Vec::new();
        let n = self.fields.len();
        let mut i: usize = 0;
        while i < n
            invariant
                n == self.fields.len(),
                i <= n,
                self@ == before,
                other == |field: HeaderView| !same_name(field.name, name@),
                kept@.map_values(|field: Header| field@) == before.take(i as int).filter(other),
            decreases n - i,
        {
            let field = &self.fields[i];
            proof {
                reveal(Seq::filter);
                let next = before.take(i + 1);
                assert(next.drop_last() == before.take(i as int));
                assert(next.last() == field@);
            }
            let ghost shown = kept@.map_values(|field: Header| field@);
            if !names_match(field.name.as_str(), name) {
                let copy = Header { name: field.name.clone(), value: field.value.clone() };
                kept.push(copy);
                assert(kept@.map_values(|field: Header| field@) == shown.push(field@));
            }
            i += 1;
        }
        let ghost shown = kept@.map_values(|field: Header| field@);
        assert(before.take(n as int) == before);
        kept.push(Header { name: String::from_str(name), value: String::from_str(value) });
        self.fields = kept;
        assert(self@ == shown.push(HeaderView { name: name@, value: value@ }));
    }
}

/// A request as it came in, or as it goes to the origin.
#[derive(Clone, Debug, PartialEq, Eq)]
pub struct InboundRequest {
    pub method: Method,
    pub path: String,
    pub headers: Headers,
}

/// What an `InboundRequest` is to a contract.
pub struct RequestView {
    pub method: Method,
    pub path: Seq<char>,
    pub headers: Seq<HeaderView>,
}

impl View for InboundRequest {
    type V = RequestView;

    open spec fn view(&self) -> RequestView {
        RequestView { method: self.method, path: self.path@, headers: self.headers@ }
    }
}

/// A response: the origin's, or the one that goes to the client.
#[derive(Clone, Debug, PartialEq, Eq)]
pub struct Response {
    pub status: u16,
    pub headers: Headers,
    pub body: Vec<u8>,
}

/// What a `Response` is to a contract.
pub struct ResponseView {
    pub status: u16,
    pub headers: Seq<HeaderView>,
    pub body: Seq<u8>,
}

impl View for Response {
    type V = ResponseView;

    open spec fn view(&self) -> ResponseView {
        ResponseView { status: self.status, headers: self.headers@, body: self.body@ }
    }
}

/// Being the same header name is an equivalence: a name is the same as
/// itself, and the relation can be turned round and chained.
pub proof fn lemma_same_name_is_equivalence(a: Seq<char>, b: Seq<char>, c: Seq<char>)
    ensures
        same_name(a, a),
        same_name(a, b) ==> same_name(b, a),
        same_name(a, b) && same_name(b, c) ==> same_name(a, c),
{
    if same_name(a, b) {
        assert forall|i: int| 0 <= i < b.len() implies ascii_lower(#[trigger] b[i]) == ascii_lower(
            a[i],
        ) by {
            assert(ascii_lower(a[i]) == ascii_lower(b[i]));
        }
        if same_name(b, c) {
            assert forall|i: int| 0 <= i < a.len() implies ascii_lower(#[trigger] a[i])
                == ascii_lower(c[i]) by {
                assert(ascii_lower(b[i]) == ascii_lower(c[i]));
            }
        }
    }
}

/// Looking a name up in fields with one more at the end: the first match
/// among the fields before it wins, and the last field is asked only where
/// there is none.
pub proof fn lemma_first_value_push(fields: Seq<HeaderView>, last: HeaderView, name: Seq<char>)
    ensures
        first_value(fields.push(last), name) == match first_value(fields, name) {
            Some(value) => Some(value),
            None => if same_name(last.name, name) {
                Some(last.value)
            } else {
                None
            },
        },
    decreases fields.len(),
{
    let all = fields.push(last);
    if fields.len() == 0 {
        assert(all.drop_first() =~= fields);
    } else {
        assert(all.drop_first() =~= fields.drop_first().push(last));
        lemma_first_value_push(fields.drop_first(), last, name);
    }
}

/// Dropping the fields of one name leaves no field of that name, and does
/// not change what any other name reads.
pub proof fn lemma_first_value_without(fields: Seq<HeaderView>, gone: Seq<char>, name: Seq<char>)
    ensures
        first_value(fields.filter(|field: HeaderView| !same_name(field.name, gone)), name) == if same_name(
            name,
            gone,
        ) {
            None
        } else {
            first_value(fields, name)
        },
    decreases fields.len(),
{
    reveal(Seq::filter);
    let other = |field: HeaderView| !same_name(field.name, gone);
    if fields.len() > 0 {
        let front = fields.drop_last();
        let last = fields.last();
        assert(fields =~= front.push(last));
        lemma_first_value_without(front, gone, name);
        lemma_first_value_push(front, last, name);
        lemma_first_value_push(front.filter(other), last, name);
        lemma_same_name_is_equivalence(last.name, name, gone);
        lemma_same_name_is_equivalence(name, gone, last.name);
        lemma_same_name_is_equivalence(gone, last.name, name);
    }
}

/// A name that was set reads back as the value it was set to, whatever
/// fields of that name there were before.
pub proof fn lemma_set_name_reads_back(fields: Seq<HeaderView>, name: Seq<char>, value: Seq<char>)
    ensures
        first_value(with_field(fields, name, value), name) == Some(value),
{
    let other = |field: HeaderView| !same_name(field.name, name);
    lemma_first_value_without(fields, name, name);
    lemma_first_value_push(fields.filter(other), HeaderView { name, value }, name);
    lemma_same_name_is_equivalence(name, name, name);
}

/// Setting one name does not change what another name reads.
pub proof fn lemma_set_keeps_other_names(
    fields: Seq<HeaderView>,
    name: Seq<char>,
    value: Seq<char>,
    other_name: Seq<char>,
)
    requires
        !same_name(other_name, name),
    ensures
        first_value(with_field(fields, name, value), other_name) == first_value(fields, other_name),
{
    let other = |field: HeaderView| !same_name(field.name, name);
    lemma_first_value_without(fields, name, other_name);
    lemma_first_value_push(fields.filter(other), HeaderView { name, value }, other_name);
    lemma_same_name_is_equivalence(name, other_name, name);
}

} // verus!
