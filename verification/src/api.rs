//! What the commands ask of the registrar's API, and what it answers.

use vstd::prelude::*;

verus! {

/// A DNS record as the API lists it, as far as the commands look at it.
#[derive(Debug)]
pub struct DnsRecord {
    /// The id by which the API addresses the record, where it gave one.
    pub record_id: Option<String>,
    pub type_: String,
    pub data: String,
}

/// The model of a [`DnsRecord`].
pub struct RecordView {
    pub record_id: Option<Seq<char>>,
    pub type_: Seq<char>,
    pub data: Seq<char>,
}

impl DeepView for DnsRecord {
    type V = RecordView;

    open spec fn deep_view(&self) -> RecordView {
        RecordView {
            record_id: self.record_id.deep_view(),
            type_: self.type_@,
            data: self.data@,
        }
    }
}

/// The part of a record to write that the commands decide; the record options that the user gave
/// (time to live, priority and the like) are added to it when it is sent.
#[derive(Debug)]
pub struct RecordDraft {
    pub name: String,
    pub record_type: String,
    pub data: String,
}

/// The model of a [`RecordDraft`].
pub struct DraftView {
    pub name: Seq<char>,
    pub record_type: Seq<char>,
    pub data: Seq<char>,
}

impl DeepView for RecordDraft {
    type V = DraftView;

    open spec fn deep_view(&self) -> DraftView {
        DraftView { name: self.name@, record_type: self.record_type@, data: self.data@ }
    }
}

/// How many of the first `n` records have an id.
pub open spec fn ids_before(records: Seq<RecordView>, n: int) -> nat {
    records.take(n).filter(|record: RecordView| record.record_id is Some).len()
}

/// Counting ids one record further.
pub proof fn lemma_ids_before_step(records: Seq<RecordView>, n: int)
    requires
        0 <= n < records.len(),
    ensures
        ids_before(records, n + 1) == ids_before(records, n) + if records[n].record_id is Some {
            1int
        } else {
            0
        },
{
    reveal(Seq::filter);
    assert(records.take(n + 1).drop_last() =~= records.take(n));
    assert(records.take(n + 1).last() == records[n]);
}

/// Before the first record there is no id.
pub proof fn lemma_ids_before_zero(records: Seq<RecordView>)
    ensures
        ids_before(records, 0) == 0,
{
    reveal(Seq::filter);
}

/// Counting ids further does not lower the count.
pub proof fn lemma_ids_before_grows(records: Seq<RecordView>, low: int, high: int)
    requires
        0 <= low <= high <= records.len(),
    ensures
        ids_before(records, low) <= ids_before(records, high),
    decreases high - low,
{
    if low < high {
        lemma_ids_before_step(records, low);
        lemma_ids_before_grows(records, low + 1, high);
    }
}

/// Among the records that have an id, no two have as many ids before them.
pub proof fn lemma_ids_before_tells_apart(records: Seq<RecordView>, left: int, right: int)
    requires
        0 <= left < records.len(),
        0 <= right < records.len(),
        records[left].record_id is Some,
        records[right].record_id is Some,
        ids_before(records, left) == ids_before(records, right),
    ensures
        left == right,
{
    lemma_ids_before_step(records, left);
    lemma_ids_before_step(records, right);
    if left < right {
        lemma_ids_before_grows(records, left + 1, right);
    } else if right < left {
        lemma_ids_before_grows(records, right + 1, left);
    }
}

/// One call of the API.
#[derive(Debug)]
pub enum ApiCall {
    /// Create a record in the zone. `retry` tells the second attempt from the first.
    Create { zone: String, draft: RecordDraft, retry: bool },
    /// Replace the record with the given id. `retry` tells the second attempt from the first.
    Replace { zone: String, record_id: String, draft: RecordDraft, retry: bool },
    /// Delete the record with the given id. `conflict` tells a record that stands in the way of
    /// another from one that the user asked to delete.
    Delete { zone: String, record_id: String, conflict: bool },
    /// List every record at the name of a draft, of whatever type, to see what the draft is a
    /// duplicate of.
    ListName { zone: String, draft: RecordDraft },
}

/// The model of an [`ApiCall`].
pub enum CallView {
    Create { zone: Seq<char>, draft: DraftView, retry: bool },
    Replace { zone: Seq<char>, record_id: Seq<char>, draft: DraftView, retry: bool },
    Delete { zone: Seq<char>, record_id: Seq<char>, conflict: bool },
    ListName { zone: Seq<char>, draft: DraftView },
}

impl DeepView for ApiCall {
    type V = CallView;

    open spec fn deep_view(&self) -> CallView {
        match self {
            ApiCall::Create { zone, draft, retry } => CallView::Create {
                zone: zone@,
                draft: draft.deep_view(),
                retry: *retry,
            },
            ApiCall::Replace { zone, record_id, draft, retry } => CallView::Replace {
                zone: zone@,
                record_id: record_id@,
                draft: draft.deep_view(),
                retry: *retry,
            },
            ApiCall::Delete { zone, record_id, conflict } => CallView::Delete {
                zone: zone@,
                record_id: record_id@,
                conflict: *conflict,
            },
            ApiCall::ListName { zone, draft } => CallView::ListName {
                zone: zone@,
                draft: draft.deep_view(),
            },
        }
    }
}

/// What came of a call.
#[derive(Debug)]
pub enum Reply {
    /// A write or a deletion succeeded.
    Succeeded,
    /// The records found at the name of a draft, and the description for the user of what the
    /// draft is a duplicate of.
    Listed { records: Vec<DnsRecord>, description: String },
    /// The API answered with an error response: whether its body reports a duplicate record, and
    /// the message for the user.
    Rejected { duplicate: bool, message: String },
    /// The call failed otherwise, with the message for the user.
    Failed { message: String },
}

/// The model of a [`Reply`].
pub enum ReplyView {
    Succeeded,
    Listed { records: Seq<RecordView>, description: Seq<char> },
    Rejected { duplicate: bool, message: Seq<char> },
    Failed { message: Seq<char> },
}

impl DeepView for Reply {
    type V = ReplyView;

    open spec fn deep_view(&self) -> ReplyView {
        match self {
            Reply::Succeeded => ReplyView::Succeeded,
            Reply::Listed { records, description } => ReplyView::Listed {
                records: records.deep_view(),
                description: description@,
            },
            Reply::Rejected { duplicate, message } => ReplyView::Rejected {
                duplicate: *duplicate,
                message: message@,
            },
            Reply::Failed { message } => ReplyView::Failed { message: message@ },
        }
    }
}

/// The error message that a reply carries, if it does.
pub open spec fn error_of(reply: ReplyView) -> Option<Seq<char>> {
    match reply {
        ReplyView::Succeeded => None,
        ReplyView::Listed { .. } => None,
        ReplyView::Rejected { message, .. } => Some(message),
        ReplyView::Failed { message } => Some(message),
    }
}

/// Whether a reply can be the answer to a call: a listing is answered by records, and only a
/// listing is; any call can fail.
pub open spec fn answers(reply: ReplyView, call: CallView) -> bool {
    match reply {
        ReplyView::Succeeded => !(call is ListName),
        ReplyView::Listed { .. } => call is ListName,
        ReplyView::Rejected { .. } => true,
        ReplyView::Failed { .. } => true,
    }
}

impl Reply {
    /// The error message that the reply carries, if it does.
    pub fn into_error(self) -> (error: Option<String>)
        ensures
            error.deep_view() == error_of(self.deep_view()),
    {
        match self {
            Reply::Succeeded => None,
            Reply::Listed { .. } => None,
            Reply::Rejected { message, .. } => Some(message),
            Reply::Failed { message } => Some(message),
        }
    }
}

/// What a write or a deletion is doing, in words, for the message of its failure.
pub open spec fn call_label(call: CallView) -> Option<Seq<char>> {
    match call {
        CallView::Create { .. } => Some("creating DNS record"@),
        CallView::Replace { .. } => Some("replacing DNS record"@),
        CallView::Delete { conflict: false, .. } => Some("deleting DNS record"@),
        CallView::Delete { conflict: true, .. } => Some("deleting conflicting DNS record"@),
        CallView::ListName { .. } => None,
    }
}

/// Whether an error response to a call is looked into for a duplicate record: only one to the
/// first attempt at a write is.
pub open spec fn inspected(call: CallView) -> bool {
    match call {
        CallView::Create { retry, .. } => !retry,
        CallView::Replace { retry, .. } => !retry,
        _ => false,
    }
}

impl ApiCall {
    /// Whether an error response to the call is looked into for a duplicate record. One to any
    /// other call is reported as it is.
    pub fn inspects_rejection(&self) -> (inspects: bool)
        ensures
            inspects == inspected(self.deep_view()),
    {
        match self {
            ApiCall::Create { retry, .. } => !*retry,
            ApiCall::Replace { retry, .. } => !*retry,
            _ => false,
        }
    }

    /// What a write or a deletion is doing, in words, for the message of its failure. A listing
    /// has no such words: its failure comes with a message of its own.
    pub fn label(&self) -> (label: Option<&'static str>)
        ensures
            label.deep_view() == call_label(self.deep_view()),
    {
        match self {
            ApiCall::Create { .. } => Some("creating DNS record"),
            ApiCall::Replace { .. } => Some("replacing DNS record"),
            ApiCall::Delete { conflict: false, .. } => Some("deleting DNS record"),
            ApiCall::Delete { conflict: true, .. } => Some("deleting conflicting DNS record"),
            ApiCall::ListName { .. } => None,
        }
    }
}

} // verus!
