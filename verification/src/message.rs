//! Requests and responses as the proxy core sees them: a status, a method, a
//! path, and headers as names with values.

use crate::error::VaneError;
use crate::search::{first_match, lemma_first_match_is};
use crate::text::{eq_ignore_ascii_case, eq_ignoring_ascii_case};
use vstd::prelude::*;

verus! {

/// A header. The value is its text where it is visible ASCII, and nothing
/// where the header is present with a value that is not text.
#[derive(Debug, Clone)]
pub struct Header {
    pub name: String,
    pub value: Option<String>,
}

/// What a header holds.
pub struct HeaderView {
    pub name: Seq<char>,
    pub value: Option<Seq<char>>,
}

impl View for Header {
    type V = HeaderView;

    open spec fn view(&self) -> HeaderView {
        HeaderView {
            name: self.name@,
            value: match self.value {
                Some(text) => Some(text@),
                None => None,
            },
        }
    }
}

impl DeepView for Header {
    type V = HeaderView;

    open spec fn deep_view(&self) -> HeaderView {
        self@
    }
}

/// Whether a header goes by `name`; names that differ only in the
/// case of ASCII letters are the same name.
pub open spec fn is_named(name: Seq<char>) -> spec_fn(HeaderView) -> bool {
    |header: HeaderView| eq_ignoring_ascii_case(header.name, name)
}

/// Whether a header goes by another name than `name`.
pub open spec fn is_not_named(name: Seq<char>) -> spec_fn(HeaderView) -> bool {
    |header: HeaderView| !eq_ignoring_ascii_case(header.name, name)
}

/// Whether some header goes by `name`.
pub open spec fn has_header(headers: Seq<HeaderView>, name: Seq<char>) -> bool {
    first_match(headers, is_named(name)) < headers.len()
}

/// The text of the first header named `name`, where there is such a header
/// and its value is text.
pub open spec fn text_of(headers: Seq<HeaderView>, name: Seq<char>) -> Option<Seq<char>> {
    if has_header(headers, name) {
        headers[first_match(headers, is_named(name))].value
    } else {
        None
    }
}

/// The headers that do not go by `name`.
pub open spec fn without(headers: Seq<HeaderView>, name: Seq<char>) -> Seq<HeaderView> {
    headers.filter(is_not_named(name))
}

/// A change to a list of headers.
#[derive(Debug, Clone)]
pub enum HeaderEdit {
    /// Takes out every header of this name.
    Remove(String),
    /// Puts the header in place of every header of its name.
    Insert(String, String),
    /// Adds the header and keeps those of its name.
    Append(String, String),
}

/// What an edit holds.
pub enum EditView {
    Remove(Seq<char>),
    Insert(Seq<char>, Seq<char>),
    Append(Seq<char>, Seq<char>),
}

impl View for HeaderEdit {
    type V = EditView;

    open spec fn view(&self) -> EditView {
        match self {
            HeaderEdit::Remove(name) => EditView::Remove(name@),
            HeaderEdit::Insert(name, value) => EditView::Insert(name@, value@),
            HeaderEdit::Append(name, value) => EditView::Append(name@, value@),
        }
    }
}

impl DeepView for HeaderEdit {
    type V = EditView;

    open spec fn deep_view(&self) -> EditView {
        self@
    }
}

/// The headers after one edit.
pub open spec fn edited(headers: Seq<HeaderView>, edit: EditView) -> Seq<HeaderView> {
    match edit {
        EditView::Remove(name) => without(headers, name),
        EditView::Insert(name, value) => without(headers, name).push(
            HeaderView { name, value: Some(value) },
        ),
        EditView::Append(name, value) => headers.push(HeaderView { name, value: Some(value) }),
    }
}

/// The headers after a series of edits, made in order.
pub open spec fn edited_all(headers: Seq<HeaderView>, edits: Seq<EditView>) -> Seq<HeaderView>
    decreases edits.len(),
{
    if edits.len() == 0 {
        headers
    } else {
        edited(edited_all(headers, edits.drop_last()), edits.last())
    }
}

/// No header of `headers` goes by `name`.
pub open spec fn none_named(headers: Seq<HeaderView>, name: Seq<char>) -> bool {
    forall|i: int| 0 <= i < headers.len() ==> !is_named(name)(#[trigger] headers[i])
}

/// Taking out a name leaves no header of that name, and brings back none of
/// a name that was absent.
pub proof fn lemma_without(headers: Seq<HeaderView>, name: Seq<char>, other: Seq<char>)
    ensures
        none_named(without(headers, name), name),
        none_named(headers, other) ==> none_named(without(headers, name), other),
{
    let rest = without(headers, name);
    assert forall|i: int| 0 <= i < rest.len() implies !is_named(name)(#[trigger] rest[i]) by {
        headers.lemma_filter_pred(is_not_named(name), i);
    }
    if none_named(headers, other) {
        assert forall|i: int| 0 <= i < rest.len() implies !is_named(other)(#[trigger] rest[i]) by {
            assert(rest.contains(rest[i]));
            headers.lemma_filter_contains_rev(is_not_named(name), rest[i]);
            let j = choose|j: int| 0 <= j < headers.len() && headers[j] == rest[i];
            assert(!is_named(other)(headers[j]));
        }
    }
}

/// Edits made one series after the other are the edits of both series in
/// one.
pub proof fn lemma_edits_compose(headers: Seq<HeaderView>, first: Seq<EditView>, then: Seq<EditView>)
    ensures
        edited_all(edited_all(headers, first), then) == edited_all(headers, first + then),
    decreases then.len(),
{
    if then.len() == 0 {
        assert(first + then =~= first);
    } else {
        lemma_edits_compose(headers, first, then.drop_last());
        assert((first + then).drop_last() =~= first + then.drop_last());
        assert((first + then).last() == then.last());
    }
}

/// Position of the first header named `name`, if there is one.
pub fn find_header(headers: &Vec<Header>, name: &str) -> (r: Option<usize>)
    ensures
        match r {
            Some(i) => i < headers@.len() && i == first_match(
                headers.deep_view(),
                is_named(name@),
            ),
            None => !has_header(headers.deep_view(), name@),
        },
{
    let mut i: usize = 0;
    while i < headers.len()
        invariant
            i <= headers@.len(),
            forall|k: int| 0 <= k < i ==> !is_named(name@)(#[trigger] headers.deep_view()[k]),
        decreases headers.len() - i,
    {
        if eq_ignore_ascii_case(headers[i].name.as_str(), name) {
            proof {
                assert(headers.deep_view()[i as int] == headers[i as int]@);
                lemma_first_match_is(headers.deep_view(), is_named(name@), i as int);
            }
            return Some(i);
        }
        assert(headers.deep_view()[i as int] == headers[i as int]@);
        i = i + 1;
    }
    proof {
        lemma_first_match_is(headers.deep_view(), is_named(name@), i as int);
    }
    None
}

/// The text of the first header named `name`.
pub fn header_text<'a>(headers: &'a Vec<Header>, name: &str) -> (r: Option<&'a str>)
    ensures
        match r {
            Some(text) => text_of(headers.deep_view(), name@) == Some(text@),
            None => text_of(headers.deep_view(), name@) is None,
        },
{
    match find_header(headers, name) {
        Some(i) => {
            assert(headers.deep_view()[i as int] == headers[i as int]@);
            match &headers[i].value {
                Some(text) => Some(text.as_str()),
                None => None,
            }
        },
        None => None,
    }
}

/// Takes every header named `name` out of `headers`.
pub fn remove_header(headers: &mut Vec<Header>, name: &str)
    ensures
        final(headers).deep_view() == without(old(headers).deep_view(), name@),
{
    let ghost before = headers.deep_view();
    let ghost keep = is_not_named(name@);
    let mut kept: Vec<Header> = Vec::new();
    let mut i: usize = 0;
    assert(before.take(0) =~= Seq::<HeaderView>::empty());
    assert(kept.deep_view() =~= Seq::<HeaderView>::empty());
    while i < headers.len()
        invariant
            i <= headers@.len(),
            headers.deep_view() == before,
            keep == is_not_named(name@),
            kept.deep_view() == before.take(i as int).filter(keep),
        decreases headers.len() - i,
    {
        let ghost so_far = kept.deep_view();
        proof {
            assert(before[i as int] == headers[i as int]@);
            before.take(i as int).lemma_filter_push(before[i as int], keep);
            assert(before.take(i + 1) =~= before.take(i as int).push(before[i as int]));
        }
        if !eq_ignore_ascii_case(headers[i].name.as_str(), name) {
            let value = match &headers[i].value {
                Some(text) => Some(text.clone()),
                None => None,
            };
            let copy = Header { name: headers[i].name.clone(), value };
            assert(copy@ == before[i as int]);
            kept.push(copy);
            assert(kept.deep_view() =~= so_far.push(before[i as int]));
        }
        i = i + 1;
    }
    assert(before.take(before.len() as int) =~= before);
    *headers = kept;
}

/// Makes one edit to `headers`.
pub fn apply_edit(headers: &mut Vec<Header>, edit: &HeaderEdit)
    ensures
        final(headers).deep_view() == edited(old(headers).deep_view(), edit@),
{
    match edit {
        HeaderEdit::Remove(name) => {
            remove_header(headers, name.as_str());
        },
        HeaderEdit::Insert(name, value) => {
            remove_header(headers, name.as_str());
            let ghost rest = headers.deep_view();
            let header = Header { name: name.clone(), value: Some(value.clone()) };
            headers.push(header);
            assert(headers.deep_view() =~= rest.push(header@));
        },
        HeaderEdit::Append(name, value) => {
            let ghost rest = headers.deep_view();
            let header = Header { name: name.clone(), value: Some(value.clone()) };
            headers.push(header);
            assert(headers.deep_view() =~= rest.push(header@));
        },
    }
}

/// Makes the edits to `headers`, in order.
pub fn apply_edits(headers: &mut Vec<Header>, edits: &Vec<HeaderEdit>)
    ensures
        final(headers).deep_view() == edited_all(old(headers).deep_view(), edits.deep_view()),
{
    let mut i: usize = 0;
    let ghost all = edits.deep_view();
    assert(all.take(0) =~= Seq::<EditView>::empty());
    while i < edits.len()
        invariant
            i <= edits@.len(),
            all == edits.deep_view(),
            headers.deep_view() == edited_all(old(headers).deep_view(), all.take(i as int)),
        decreases edits.len() - i,
    {
        assert(all.take(i + 1).drop_last() =~= all.take(i as int));
        assert(all.take(i + 1).last() == edits[i as int]@);
        apply_edit(headers, &edits[i]);
        i = i + 1;
    }
    assert(all.take(all.len() as int) =~= all);
}

/// What a request says before its body: the method, the path, the path with
/// the query, the authority of its URI where it has one, and the headers.
#[derive(Debug, Clone)]
pub struct RequestHead {
    pub method: String,
    pub path: String,
    pub path_and_query: Option<String>,
    pub authority: Option<String>,
    pub headers: Vec<Header>,
}

/// What the body of a response made by the proxy itself holds.
#[derive(Debug, Clone)]
pub enum ResponseBody {
    /// Nothing.
    Empty,
    /// The status page of the response's code; this text where no page can be read.
    Page(String),
}

/// A response that the proxy makes itself.
#[derive(Debug, Clone)]
pub struct ResponseHead {
    pub status: u16,
    pub headers: Vec<Header>,
    pub body: ResponseBody,
}

/// What the body of a response holds.
pub enum BodyView {
    Empty,
    Page(Seq<char>),
}

/// What a response holds.
pub struct ResponseView {
    pub status: u16,
    pub headers: Seq<HeaderView>,
    pub body: BodyView,
}

impl View for ResponseHead {
    type V = ResponseView;

    open spec fn view(&self) -> ResponseView {
        ResponseView {
            status: self.status,
            headers: self.headers.deep_view(),
            body: match self.body {
                ResponseBody::Empty => BodyView::Empty,
                ResponseBody::Page(text) => BodyView::Page(text@),
            },
        }
    }
}

/// The response that serves the status page of `status`, without headers.
pub open spec fn page_response(status: u16, message: Seq<char>) -> ResponseView {
    ResponseView { status, headers: Seq::empty(), body: BodyView::Page(message) }
}

impl ResponseHead {
    /// The response that serves the status page of `status`, and `message`
    /// where the page cannot be read.
    pub fn page(status: u16, message: &str) -> (r: ResponseHead)
        ensures
            r@ == page_response(status, message@),
    {
        let r = ResponseHead {
            status,
            headers: Vec::new(),
            body: ResponseBody::Page(message.to_owned()),
        };
        assert(r.headers.deep_view() =~= Seq::<HeaderView>::empty());
        r
    }

    /// The response that answers `error`.
    pub fn for_error(error: &VaneError) -> (r: ResponseHead)
        ensures
            r@ == page_response(error.status(), error.default_message_text()),
    {
        ResponseHead::page(error.status_code(), error.default_message())
    }
}

} // verus!
