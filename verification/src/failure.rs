//! Why workers fail.
use vstd::prelude::*;

use crate::constants;
use crate::json;
use crate::json::{get_in, text_in, Json};
use crate::models;
use crate::models::{FailureClass, FailureReport};
use crate::text;
use crate::text::same_text;
use crate::text_search::{contains, to_ascii_lowercase};

verus! {

/// The class of an error text, in small letters.
pub open spec fn class_of_text(e: Seq<char>) -> FailureClass {
    if text::has_text(e, "rate limit"@) || text::has_text(e, "429"@) || text::has_text(
        e,
        "too many requests"@,
    ) {
        FailureClass::RateLimit
    } else if text::has_text(e, "timeout"@) || text::has_text(e, "timed out"@) {
        FailureClass::Timeout
    } else if text::has_text(e, "validation"@) {
        FailureClass::ValidationFailed
    } else if text::has_text(e, "merge conflict"@) || text::has_text(e, "conflict"@) {
        FailureClass::MergeConflict
    } else if text::has_text(e, "callback"@) {
        FailureClass::CallbackError
    } else if text::has_text(e, "tool"@) || text::has_text(e, "command"@) {
        FailureClass::ToolError
    } else {
        FailureClass::Unknown
    }
}

/// Whether parameters report a time limit that was passed.
pub open spec fn reports_timeout(params: Option<json::JsonView>) -> bool {
    match json::text_of(json::inner(params, "status"@)) {
        Some(s) => text::ascii_lower(s) == constants::EVENT_STATUS_TIMEOUT@ || text::ascii_lower(s)
            == constants::EVENT_STATUS_TIMED_OUT@,
        None => false,
    }
}

/// The class of a failure, by the status in its parameters and the text of its error.
pub open spec fn failure_class(
    error: Option<Seq<char>>,
    params: Option<json::JsonView>,
) -> FailureClass {
    if reports_timeout(params) {
        FailureClass::Timeout
    } else {
        class_of_text(
            text::ascii_lower(
                match error {
                    Some(e) => e,
                    None => Seq::empty(),
                },
            ),
        )
    }
}

/// The class of a failure.
pub fn classify_failure_from_error(error: Option<&str>, params: Option<&Json>) -> (r: FailureClass)
    ensures
        r == failure_class(crate::governor::opt_str(error), json::behind(params)),
{
    if let Some(status) = text_in(get_in(params, "status")) {
        let s = to_ascii_lowercase(status.as_str());
        if same_text(s.as_str(), constants::EVENT_STATUS_TIMEOUT) || same_text(
            s.as_str(),
            constants::EVENT_STATUS_TIMED_OUT,
        ) {
            return FailureClass::Timeout;
        }
    }
    let text = match error {
        Some(e) => to_ascii_lowercase(e),
        None => {
            let empty = String::new();
            assert(text::ascii_lower(Seq::empty()) == Seq::<char>::empty());
            empty
        },
    };
    let e = text.as_str();
    if contains(e, "rate limit") || contains(e, "429") || contains(e, "too many requests") {
        FailureClass::RateLimit
    } else if contains(e, "timeout") || contains(e, "timed out") {
        FailureClass::Timeout
    } else if contains(e, "validation") {
        FailureClass::ValidationFailed
    } else if contains(e, "merge conflict") || contains(e, "conflict") {
        FailureClass::MergeConflict
    } else if contains(e, "callback") {
        FailureClass::CallbackError
    } else if contains(e, "tool") || contains(e, "command") {
        FailureClass::ToolError
    } else {
        FailureClass::Unknown
    }
}

/// What is said of a failure of a class.
pub open spec fn class_summary(class: FailureClass) -> Seq<char> {
    match class {
        FailureClass::RateLimit => "rate limit reached"@,
        FailureClass::ValidationFailed => "validation failed"@,
        FailureClass::MergeConflict => "merge conflict detected"@,
        FailureClass::Timeout => "operation timed out"@,
        FailureClass::ToolError => "tool execution failed"@,
        FailureClass::CallbackError => "callback execution failed"@,
        FailureClass::Unknown => "unknown worker failure"@,
    }
}

/// What is said of a failure of a class.
pub fn failure_summary_for_class(class: &FailureClass) -> (r: &'static str)
    ensures
        r@ == class_summary(*class),
{
    match class {
        FailureClass::RateLimit => "rate limit reached",
        FailureClass::ValidationFailed => "validation failed",
        FailureClass::MergeConflict => "merge conflict detected",
        FailureClass::Timeout => "operation timed out",
        FailureClass::ToolError => "tool execution failed",
        FailureClass::CallbackError => "callback execution failed",
        FailureClass::Unknown => "unknown worker failure",
    }
}

/// Whether another try may help.
pub open spec fn is_retryable(class: FailureClass) -> bool {
    class is RateLimit || class is Timeout || class is ToolError || class is CallbackError
}

/// Whether another try may help.
pub fn failure_class_retryable(class: &FailureClass) -> (r: bool)
    ensures
        r == is_retryable(*class),
{
    match class {
        FailureClass::RateLimit => true,
        FailureClass::Timeout => true,
        FailureClass::ToolError => true,
        FailureClass::CallbackError => true,
        _ => false,
    }
}

/// The report after one more failure. A failure of the same class and summary keeps the details
/// that it has where it brings none; every failure keeps the time of the first.
pub open spec fn next_report(
    report: Option<models::FailureView>,
    class: FailureClass,
    summary: Seq<char>,
    details: Option<Seq<char>>,
    retryable: bool,
    ts: u64,
) -> models::FailureView {
    match report {
        Some(existing) => models::FailureView {
            class,
            summary,
            details: if existing.class == class && existing.summary == summary {
                json::either(details, existing.details)
            } else {
                details
            },
            first_seen: existing.first_seen,
            last_seen: ts,
            retryable,
        },
        None => models::FailureView {
            class,
            summary,
            details,
            first_seen: ts,
            last_seen: ts,
            retryable,
        },
    }
}

/// Takes note of one more failure.
pub fn update_failure_report(
    slot: &mut Option<FailureReport>,
    class: FailureClass,
    summary: String,
    details: Option<String>,
    retryable: bool,
    ts: u64,
)
    ensures
        *final(slot) is Some,
        models::opt_failure(*final(slot)) == Some(
            next_report(
                models::opt_failure(*old(slot)),
                class,
                summary@,
                text::opt_text(details),
                retryable,
                ts,
            ),
        ),
{
    let existing = slot.take();
    let report = match existing {
        Some(existing) => {
            if existing.class == class && same_text(existing.summary.as_str(), summary.as_str()) {
                FailureReport {
                    class: existing.class,
                    summary: existing.summary,
                    details: crate::extract::either_text(details, existing.details),
                    first_seen: existing.first_seen,
                    last_seen: ts,
                    retryable,
                }
            } else {
                FailureReport {
                    class,
                    summary,
                    details,
                    first_seen: existing.first_seen,
                    last_seen: ts,
                    retryable,
                }
            }
        },
        None => FailureReport {
            class,
            summary,
            details,
            first_seen: ts,
            last_seen: ts,
            retryable,
        },
    };
    *slot = Some(report);
}

/// A report keeps the time of the first failure through every further one, and shows the time
/// of the last.
pub proof fn law_first_failure_is_remembered(
    report: models::FailureView,
    class: FailureClass,
    summary: Seq<char>,
    details: Option<Seq<char>>,
    retryable: bool,
    ts: u64,
)
    ensures
        next_report(Some(report), class, summary, details, retryable, ts).first_seen
            == report.first_seen,
        next_report(Some(report), class, summary, details, retryable, ts).last_seen == ts,
{
}

/// A failure is classed by what its error says: one that speaks of a rate limit is of that class
/// whatever else it says, one that speaks of a time limit comes next, then validation, conflicts,
/// callbacks and tools; one that speaks of none of these is unknown. A status that tells of a time
/// limit decides before the error.
pub proof fn law_errors_are_classed_by_what_they_say(
    error: Seq<char>,
    params: Option<json::JsonView>,
)
    requires
        json::inner(params, "status"@) is None,
    ensures
        ({
            let e = text::ascii_lower(error);
            let class = failure_class(Some(error), params);
            let rate = text::has_text(e, "rate limit"@) || text::has_text(e, "429"@)
                || text::has_text(e, "too many requests"@);
            let time = text::has_text(e, "timeout"@) || text::has_text(e, "timed out"@);
            let validation = text::has_text(e, "validation"@);
            let conflict = text::has_text(e, "conflict"@);
            let callback = text::has_text(e, "callback"@);
            let tool = text::has_text(e, "tool"@) || text::has_text(e, "command"@);
            &&& class == FailureClass::RateLimit <==> rate
            &&& class == FailureClass::Timeout <==> !rate && time
            &&& class == FailureClass::ValidationFailed <==> !rate && !time && validation
            &&& class == FailureClass::MergeConflict <==> !rate && !time && !validation && conflict
            &&& class == FailureClass::CallbackError <==> !rate && !time && !validation && !conflict
                && callback
            &&& class == FailureClass::ToolError <==> !rate && !time && !validation && !conflict
                && !callback && tool
            &&& class == FailureClass::Unknown <==> !rate && !time && !validation && !conflict
                && !callback && !tool
        }),
{
    let e = text::ascii_lower(error);
    if text::has_text(e, "merge conflict"@) {
        lemma_part_is_found(e);
    }
}

proof fn lemma_part_is_found(e: Seq<char>)
    requires
        text::has_text(e, "merge conflict"@),
    ensures
        text::has_text(e, "conflict"@),
{
    reveal_strlit("merge conflict");
    reveal_strlit("conflict");
    let i = choose|i: int| text::occurs_at(e, "merge conflict"@, i);
    let whole = e.subrange(i, i + 14);
    assert(whole == "merge conflict"@);
    assert(e.subrange(i + 6, i + 14) == "conflict"@) by {
        assert forall|k: int| 0 <= k < 8 implies e.subrange(i + 6, i + 14)[k] == "conflict"@[k] by {
            assert(e.subrange(i + 6, i + 14)[k] == whole[k + 6]);
        }
    }
    assert(text::occurs_at(e, "conflict"@, i + 6));
}

/// A status of a time limit decides whatever the error says, in large or small letters.
pub proof fn law_timeout_status_decides(
    error: Option<Seq<char>>,
    params: json::JsonView,
    status: Seq<char>,
)
    requires
        json::member(params, "status"@) == Some(json::JsonView::Text(status)),
        text::ascii_lower(status) == "timeout"@ || text::ascii_lower(status) == "timed_out"@,
    ensures
        failure_class(error, Some(params)) == FailureClass::Timeout,
{
}

/// Another try may help after a rate limit, a time limit and a failure of a tool or a callback;
/// work that was found bad, a conflict and an unknown failure need more than that.
pub proof fn law_only_passing_failures_are_tried_again()
    ensures
        is_retryable(FailureClass::RateLimit),
        is_retryable(FailureClass::Timeout),
        is_retryable(FailureClass::ToolError),
        is_retryable(FailureClass::CallbackError),
        !is_retryable(FailureClass::ValidationFailed),
        !is_retryable(FailureClass::MergeConflict),
        !is_retryable(FailureClass::Unknown),
        class_summary(FailureClass::RateLimit) == "rate limit reached"@,
        class_summary(FailureClass::ValidationFailed) == "validation failed"@,
        class_summary(FailureClass::MergeConflict) == "merge conflict detected"@,
        class_summary(FailureClass::Timeout) == "operation timed out"@,
        class_summary(FailureClass::ToolError) == "tool execution failed"@,
        class_summary(FailureClass::CallbackError) == "callback execution failed"@,
        class_summary(FailureClass::Unknown) == "unknown worker failure"@,
{
}

/// A report tells of the last failure: its class, its summary, whether another try may help, and
/// its details. A failure without details keeps those of the same failure before it, and of no
/// other. The first failure sets both times.
pub proof fn law_report_tells_of_the_last_failure(
    report: Option<models::FailureView>,
    class: FailureClass,
    summary: Seq<char>,
    details: Option<Seq<char>>,
    retryable: bool,
    ts: u64,
)
    ensures
        ({
            let r = next_report(report, class, summary, details, retryable, ts);
            &&& r.class == class
            &&& r.summary == summary
            &&& r.retryable == retryable
            &&& r.last_seen == ts
            &&& details is Some ==> r.details == details
            &&& report is None ==> r.first_seen == ts && r.details == details
            &&& report matches Some(old) ==> {
                &&& r.first_seen == old.first_seen
                &&& details is None && old.class == class && old.summary == summary ==> r.details
                    == old.details
                &&& details is None && !(old.class == class && old.summary == summary)
                    ==> r.details is None
            }
        }),
{
}

} // verus!
