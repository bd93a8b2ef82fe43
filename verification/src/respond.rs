//! The dispatcher-side handling of one job response: decode its token,
//! render its report, and say what to post back and what to clean up.

use vstd::prelude::*;
use vstd::string::StringExecFns;
use crate::codec::DecodeError;
use crate::codec::JobContext;
use crate::codec::decode;
use crate::codec::decode_ctx;
use crate::decimal::dec_str;
use crate::decimal::usize_to_dec;
use crate::report::Report;
use crate::report::report_markdown;
use crate::report::report_to_markdown;

verus! {

/// The short status summary for a grade pair.
pub open spec fn grade_summary(grade: nat, max_grade: nat) -> Seq<char> {
    "grade: "@ + dec_str(grade) + "/"@ + dec_str(max_grade)
}

/// What one job response leads to: a status post always, a comment with the
/// full report only on failure (the UI stays quiet on success), and the
/// artifact of the decoded context to clean up.
pub struct PostActions {
    pub success: bool,
    pub summary: String,
    pub comment: Option<String>,
    pub context: JobContext,
}

/// Decides what to post for one job response.  A token this relay did not
/// mint is a hard error: nothing is posted for that message.
pub fn response_to_post(lab: &str, report: &Report, opaque: &str) -> (r: Result<
    PostActions,
    DecodeError,
>)
    ensures
        r is Ok <==> decode_ctx(opaque@) is Some,
        r is Ok ==> {
            let a = r->Ok_0;
            &&& a.context@ == decode_ctx(opaque@)->Some_0
            &&& a.success == (report.grade == report.max_grade)
            &&& a.summary@ == grade_summary(report.grade as nat, report.max_grade as nat)
            &&& (a.comment is Some <==> report.grade != report.max_grade)
            &&& (a.comment is Some ==> a.comment->Some_0@ == report_markdown(lab@, report@))
        },
{
    let context = match decode(opaque) {
        Ok(ctx) => ctx,
        Err(e) => {
            return Err(e);
        },
    };
    let (markdown, grade, max_grade) = report_to_markdown(lab, report);
    let success = grade == max_grade;
    let mut summary = String::from_str("grade: ");
    summary.append(usize_to_dec(grade).as_str());
    summary.append("/");
    summary.append(usize_to_dec(max_grade).as_str());
    let comment = if success {
        None
    } else {
        Some(markdown)
    };
    Ok(PostActions { success, summary, comment, context })
}

} // verus!
