//! The domain record: one approved submission ("ship"), and the extraction
//! rules that read it out of a raw record.
//!
//! Every target field has an independent lookup path into the raw record's
//! nested structure plus a coercion. A missing or ill-typed `id` is fatal
//! for the record; every other field degrades to "absent" instead. All
//! extracted text is sanitized (null characters stripped) before it can
//! reach the store. Effort hours are carried through as the IEEE-754 bit
//! pattern of the source number; nothing here computes with them.

use vstd::prelude::*;

use crate::date::Date;
use crate::date::day_of;
use crate::date::month_of;
use crate::date::parse_date;
use crate::date::parses_as_date;
use crate::date::year_of;
use crate::embedding::EMBEDDING_DIM;
use crate::embedding::Embedding;
use crate::raw::RawValue;
use crate::text::sanitize;
use crate::text::sanitized;

verus! {

/// One approved submission, as the store holds it.
#[derive(Debug)]
pub struct Ship {
    pub id: String,
    pub heard_through: Option<String>,
    pub github_username: Option<String>,
    pub country: Option<String>,
    pub hours_bits: Option<u64>,
    pub screenshot_url: Option<String>,
    pub code_url: Option<String>,
    pub demo_url: Option<String>,
    pub description: Option<String>,
    pub approved_at: Option<Date>,
    pub ysws: Option<String>,
    pub embedding: Option<Embedding>,
}

/// The mathematical value of a ship: every text field as its character
/// sequence, the embedding as its component sequence.
pub ghost struct ShipView {
    pub id: Seq<char>,
    pub heard_through: Option<Seq<char>>,
    pub github_username: Option<Seq<char>>,
    pub country: Option<Seq<char>>,
    pub hours_bits: Option<u64>,
    pub screenshot_url: Option<Seq<char>>,
    pub code_url: Option<Seq<char>>,
    pub demo_url: Option<Seq<char>>,
    pub description: Option<Seq<char>>,
    pub approved_at: Option<Date>,
    pub ysws: Option<Seq<char>>,
    pub embedding: Option<Seq<i32>>,
}

impl ShipView {
    /// The record has a non-empty description.
    pub open spec fn has_description(self) -> bool {
        match self.description {
            Some(d) => d.len() > 0,
            None => false,
        }
    }

    /// The stored-record invariant: an embedding is present only for a
    /// record whose description is non-empty, and then it has the fixed
    /// dimension. A record without a description never carries a stale
    /// embedding.
    pub open spec fn wf(self) -> bool {
        match self.embedding {
            Some(e) => e.len() == EMBEDDING_DIM && self.has_description(),
            None => true,
        }
    }

    /// The same record with the given embedding attached.
    pub open spec fn with_embedding(self, e: Seq<i32>) -> ShipView {
        ShipView { embedding: Some(e), ..self }
    }
}

impl View for Ship {
    type V = ShipView;

    open spec fn view(&self) -> ShipView {
        ShipView {
            id: self.id@,
            heard_through: self.heard_through.deep_view(),
            github_username: self.github_username.deep_view(),
            country: self.country.deep_view(),
            hours_bits: self.hours_bits,
            screenshot_url: self.screenshot_url.deep_view(),
            code_url: self.code_url.deep_view(),
            demo_url: self.demo_url.deep_view(),
            description: self.description.deep_view(),
            approved_at: self.approved_at,
            ysws: self.ysws.deep_view(),
            embedding: self.embedding.deep_view(),
        }
    }
}

impl DeepView for Ship {
    type V = ShipView;

    open spec fn deep_view(&self) -> ShipView {
        self.view()
    }
}

fn clone_opt_string(o: &Option<String>) -> (r: Option<String>)
    ensures
        r.deep_view() == o.deep_view(),
{
    match o {
        Some(s) => Some(s.clone()),
        None => None,
    }
}

impl Clone for Ship {
    fn clone(&self) -> (r: Self)
        ensures
            r@ == self@,
    {
        Ship {
            id: self.id.clone(),
            heard_through: clone_opt_string(&self.heard_through),
            github_username: clone_opt_string(&self.github_username),
            country: clone_opt_string(&self.country),
            hours_bits: self.hours_bits,
            screenshot_url: clone_opt_string(&self.screenshot_url),
            code_url: clone_opt_string(&self.code_url),
            demo_url: clone_opt_string(&self.demo_url),
            description: clone_opt_string(&self.description),
            approved_at: self.approved_at,
            ysws: clone_opt_string(&self.ysws),
            embedding: match &self.embedding {
                Some(e) => Some(e.clone()),
                None => None,
            },
        }
    }
}

/// Why a raw record could not become a ship.
#[derive(Clone, Copy, Debug, PartialEq, Eq, Structural)]
pub enum ExtractionError {
    /// The raw record carries no usable `id`; without a key it cannot be
    /// upserted.
    MissingId,
}

pub open spec fn sanitized_opt(o: Option<Seq<char>>) -> Option<Seq<char>> {
    match o {
        Some(s) => Some(sanitized(s)),
        None => None,
    }
}

/// The text of a node, if the node is there and is text.
pub open spec fn text_of_node(v: Option<RawValue>) -> Option<Seq<char>> {
    match v {
        Some(x) => x.as_text_spec(),
        None => None,
    }
}

/// The numeric bit pattern of a node, if the node is there and is a number.
pub open spec fn num_of_node(v: Option<RawValue>) -> Option<u64> {
    match v {
        Some(x) => x.as_num_spec(),
        None => None,
    }
}

/// The first element of a node, if the node is there and is an array.
pub open spec fn first_of_node(v: Option<RawValue>) -> Option<RawValue> {
    match v {
        Some(x) => x.arr_get(0),
        None => None,
    }
}

/// The named member of a node, if the node is there and is a mapping.
pub open spec fn member_of_node(v: Option<RawValue>, key: Seq<char>) -> Option<RawValue> {
    match v {
        Some(x) => x.obj_get(key),
        None => None,
    }
}

/// The record's member mapping, where the origin keeps all named fields.
pub open spec fn fields_node(raw: RawValue) -> Option<RawValue> {
    raw.obj_get("fields"@)
}

/// The sanitized record key, read from the top of the raw record.
pub open spec fn spec_id(raw: RawValue) -> Option<Seq<char>> {
    sanitized_opt(text_of_node(raw.obj_get("id"@)))
}

/// Rule for a plain text field: member of the field mapping, then text,
/// then sanitized.
pub open spec fn spec_field_text(raw: RawValue, key: Seq<char>) -> Option<Seq<char>> {
    sanitized_opt(text_of_node(member_of_node(fields_node(raw), key)))
}

/// Rule for a field kept as a one-element array of text: its first
/// element, then text, then sanitized.
pub open spec fn spec_field_first_text(raw: RawValue, key: Seq<char>) -> Option<Seq<char>> {
    sanitized_opt(text_of_node(first_of_node(member_of_node(fields_node(raw), key))))
}

/// Rule for a numeric field: member of the field mapping, then its bit
/// pattern.
pub open spec fn spec_field_num(raw: RawValue, key: Seq<char>) -> Option<u64> {
    num_of_node(member_of_node(fields_node(raw), key))
}

/// Rule for the screenshot link: first element of the `Screenshot` array,
/// then its `url` member, then text, then sanitized.
pub open spec fn spec_screenshot(raw: RawValue) -> Option<Seq<char>> {
    sanitized_opt(
        text_of_node(
            member_of_node(first_of_node(member_of_node(fields_node(raw), "Screenshot"@)), "url"@),
        ),
    )
}

/// Rule for the approval date: the `Approved At` text parsed as
/// `YYYY-MM-DD`; ill-shaped or impossible dates degrade to "absent".
pub open spec fn spec_approved_at(raw: RawValue) -> Option<Date> {
    match text_of_node(member_of_node(fields_node(raw), "Approved At"@)) {
        Some(t) => if parses_as_date(t) {
            Some(Date { year: year_of(t) as u16, month: month_of(t) as u8, day: day_of(t) as u8 })
        } else {
            None
        },
        None => None,
    }
}

/// The ship a raw record extracts to, when its `id` is present. The
/// embedding is never set here: it only appears once the sync path has a
/// vector for the description.
pub open spec fn extracted(raw: RawValue) -> ShipView {
    ShipView {
        id: spec_id(raw)->0,
        heard_through: spec_field_text(raw, "How did you hear about this?"@),
        github_username: spec_field_text(raw, "GitHub Username"@),
        country: spec_field_first_text(raw, "Hack Clubber\u{2013}Geocoded Country"@),
        hours_bits: spec_field_num(raw, "Hours Spent"@),
        screenshot_url: spec_screenshot(raw),
        code_url: spec_field_text(raw, "Code URL"@),
        demo_url: spec_field_text(raw, "Playable URL"@),
        description: spec_field_text(raw, "Description"@),
        approved_at: spec_approved_at(raw),
        ysws: spec_field_first_text(raw, "YSWS\u{2013}Name"@),
        embedding: None,
    }
}

/// Sanitized text of one node.
fn node_text(v: &RawValue) -> (r: Option<String>)
    ensures
        r.deep_view() == sanitized_opt(v.as_text_spec()),
{
    match v.as_text() {
        Some(s) => Some(sanitize(s.as_str())),
        None => None,
    }
}

fn field_text(raw: &RawValue, key: &str) -> (r: Option<String>)
    ensures
        r.deep_view() == spec_field_text(*raw, key@),
{
    match raw.get("fields") {
        Some(f) => match f.get(key) {
            Some(v) => node_text(v),
            None => None,
        },
        None => None,
    }
}

fn field_first_text(raw: &RawValue, key: &str) -> (r: Option<String>)
    ensures
        r.deep_view() == spec_field_first_text(*raw, key@),
{
    match raw.get("fields") {
        Some(f) => match f.get(key) {
            Some(v) => match v.at(0) {
                Some(first) => node_text(first),
                None => None,
            },
            None => None,
        },
        None => None,
    }
}

fn field_num(raw: &RawValue, key: &str) -> (r: Option<u64>)
    ensures
        r == spec_field_num(*raw, key@),
{
    match raw.get("fields") {
        Some(f) => match f.get(key) {
            Some(v) => v.as_num_bits(),
            None => None,
        },
        None => None,
    }
}

fn field_screenshot(raw: &RawValue) -> (r: Option<String>)
    ensures
        r.deep_view() == spec_screenshot(*raw),
{
    match raw.get("fields") {
        Some(f) => match f.get("Screenshot") {
            Some(v) => match v.at(0) {
                Some(first) => match first.get("url") {
                    Some(u) => node_text(u),
                    None => None,
                },
                None => None,
            },
            None => None,
        },
        None => None,
    }
}

fn field_approved_at(raw: &RawValue) -> (r: Option<Date>)
    ensures
        r == spec_approved_at(*raw),
{
    match raw.get("fields") {
        Some(f) => match f.get("Approved At") {
            Some(v) => match v.as_text() {
                Some(t) => parse_date(t.as_str()),
                None => None,
            },
            None => None,
        },
        None => None,
    }
}

/// Maps one raw record to a ship. Succeeds exactly when the record has a
/// usable `id`; every other field degrades to "absent" when its path or
/// coercion fails. The result never carries an embedding yet.
pub fn extract(raw: &RawValue) -> (r: Result<Ship, ExtractionError>)
    ensures
        r is Ok <==> spec_id(*raw) is Some,
        r is Ok ==> r->Ok_0@ == extracted(*raw),
        r is Ok ==> r->Ok_0@.wf(),
        r is Err ==> r->Err_0 == ExtractionError::MissingId,
{
    let id_opt: Option<String> = match raw.get("id") {
        Some(v) => node_text(v),
        None => None,
    };
    let id: String = match id_opt {
        Some(i) => i,
        None => {
            return Err(ExtractionError::MissingId);
        },
    };
    Ok(
        Ship {
            id,
            heard_through: field_text(raw, "How did you hear about this?"),
            github_username: field_text(raw, "GitHub Username"),
            country: field_first_text(raw, "Hack Clubber\u{2013}Geocoded Country"),
            hours_bits: field_num(raw, "Hours Spent"),
            screenshot_url: field_screenshot(raw),
            code_url: field_text(raw, "Code URL"),
            demo_url: field_text(raw, "Playable URL"),
            description: field_text(raw, "Description"),
            approved_at: field_approved_at(raw),
            ysws: field_first_text(raw, "YSWS\u{2013}Name"),
            embedding: None,
        },
    )
}

impl Ship {
    /// The record's description is non-empty, so a sync sweep owes it an
    /// embedding.
    pub fn needs_embedding(&self) -> (r: bool)
        ensures
            r == self@.has_description(),
    {
        match &self.description {
            Some(d) => !d.as_str().is_empty(),
            None => false,
        }
    }

    /// Attaches the embedding computed from this record's description.
    pub fn with_embedding(self, e: Embedding) -> (r: Ship)
        requires
            self@.has_description(),
            e.wf(),
        ensures
            r@ == self@.with_embedding(e@),
            r@.wf(),
    {
        Ship { embedding: Some(e), ..self }
    }
}

} // verus!
