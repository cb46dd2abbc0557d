//! What holds of every call and every reply.

use vstd::prelude::*;

use crate::api::{
    answers, call_label, error_of, inspected, CallView, DnsRecord, DraftView, RecordDraft, Reply,
    ReplyView,
};

verus! {

/// No message is lost or made up: a reply carries an error exactly if it is a rejection or another
/// failure, and the error is its message, word for word.
pub proof fn law_errors_are_passed_on(reply: ReplyView, text: Seq<char>)
    ensures
        error_of(reply) == Some(text) <==> (reply == (ReplyView::Failed { message: text }) || reply
            == (ReplyView::Rejected { duplicate: true, message: text }) || reply
            == (ReplyView::Rejected { duplicate: false, message: text })),
        error_of(reply) is None <==> reply is Succeeded || reply is Listed,
{
}

/// Every call is answered by a failure, whatever its message. Besides that a listing is answered by
/// records and by nothing else, and any other call by success and by nothing else.
pub proof fn law_what_answers(call: CallView, reply: ReplyView)
    ensures
        reply is Failed || reply is Rejected ==> answers(reply, call),
        call is ListName && !(reply is Failed || reply is Rejected) ==> (answers(reply, call)
            <==> reply is Listed),
        !(call is ListName) && !(reply is Failed || reply is Rejected) ==> (answers(reply, call)
            <==> reply is Succeeded),
{
}

/// The words for what a call does tell creations, replacements, deletions and deletions of
/// conflicting records apart, and depend on nothing else. A listing has none.
pub proof fn law_labels(
    zone: Seq<char>,
    record_id: Seq<char>,
    draft: DraftView,
    retry: bool,
)
    ensures
        call_label(CallView::Create { zone, draft, retry }) == Some("creating DNS record"@),
        call_label(CallView::Replace { zone, record_id, draft, retry }) == Some(
            "replacing DNS record"@,
        ),
        call_label(CallView::Delete { zone, record_id, conflict: false }) == Some(
            "deleting DNS record"@,
        ),
        call_label(CallView::Delete { zone, record_id, conflict: true }) == Some(
            "deleting conflicting DNS record"@,
        ),
        call_label(CallView::ListName { zone, draft }) is None,
{
}

/// An error response is looked into for a duplicate exactly if it answers a write that is not the
/// second attempt.
pub proof fn law_first_attempts_are_inspected(
    zone: Seq<char>,
    record_id: Seq<char>,
    draft: DraftView,
    flag: bool,
)
    ensures
        inspected(CallView::Create { zone, draft, retry: flag }) == !flag,
        inspected(CallView::Replace { zone, record_id, draft, retry: flag }) == !flag,
        !inspected(CallView::Delete { zone, record_id, conflict: flag }),
        !inspected(CallView::ListName { zone, draft }),
{
}

/// The model of a record is all of it.
pub proof fn law_record_model(record: DnsRecord)
    ensures
        record.record_id is None <==> record.deep_view().record_id is None,
        record.record_id matches Some(id) ==> record.deep_view().record_id == Some(id@),
        record.deep_view().type_ == record.type_@,
        record.deep_view().data == record.data@,
{
}

/// The model of a draft is all of it.
pub proof fn law_draft_model(draft: RecordDraft)
    ensures
        draft.deep_view().name == draft.name@,
        draft.deep_view().record_type == draft.record_type@,
        draft.deep_view().data == draft.data@,
{
}

/// The model of a reply is all of it.
pub proof fn law_reply_model(reply: Reply)
    ensures
        match reply {
            Reply::Succeeded => reply.deep_view() == ReplyView::Succeeded,
            Reply::Listed { records, description } => reply.deep_view() matches ReplyView::Listed {
                records: modelled,
                description: text,
            } && modelled.len() == records.len() && text == description@ && (forall|i: int|
                0 <= i < records.len() ==> #[trigger] modelled[i] == records@[i].deep_view()),
            Reply::Rejected { duplicate, message } => reply.deep_view() == (ReplyView::Rejected {
                duplicate,
                message: message@,
            }),
            Reply::Failed { message } => reply.deep_view() == (ReplyView::Failed {
                message: message@,
            }),
        },
{
}

} // verus!
