//! Editing a stored draft: every field the edit names is replaced, every
//! field it leaves out is kept.
use vstd::prelude::*;

use crate::cli::DraftEditArgs;
use crate::helpers;
use crate::models::DraftRecord;
use crate::text;

verus! {

/// The row an edit writes.
#[derive(Debug)]
pub struct DraftUpdate {
    pub account_email: String,
    pub subject: String,
    pub text_body: Option<String>,
    pub html_body: Option<String>,
    pub to: Vec<String>,
    pub cc: Vec<String>,
    pub bcc: Vec<String>,
    pub reply_to: Vec<String>,
    pub scheduled_at: Option<String>,
    /// Whether the attachment list is replaced: by the given files, or by
    /// nothing when the edit clears it. Otherwise the stored list stays.
    pub replace_attachments: bool,
}

/// A recipient list after the edit: the given list normalised, without the
/// addresses that normalise to nothing (so `--to ""` clears the list), or
/// the stored one.
pub open spec fn edited_list(given: Option<Vec<String>>, stored: Vec<String>) -> Seq<Seq<char>> {
    match given {
        Some(v) => helpers::normalized_all(text::views(v@)).filter(|e: Seq<char>| e.len() > 0),
        None => text::views(stored@),
    }
}

/// The non-empty texts of `v`, in order.
fn non_empty(v: Vec<String>) -> (res: Vec<String>)
    ensures
        text::views(res@) == text::views(v@).filter(|e: Seq<char>| e.len() > 0),
{
    let ghost keep = |e: Seq<char>| e.len() > 0;
    let ghost all = text::views(v@);
    let mut out: Vec<String> = Vec::new();
    let mut i: usize = 0;
    while i < v.len()
        invariant
            i <= v.len(),
            all == text::views(v@),
            keep == (|e: Seq<char>| e.len() > 0),
            text::views(out@) == all.take(i as int).filter(keep),
        decreases v.len() - i,
    {
        proof {
            assert(all.take(i + 1).drop_last() =~= all.take(i as int));
            assert(all.take(i + 1).last() == v@[i as int]@);
            reveal(Seq::filter);
        }
        if !v[i].as_str().is_empty() {
            let ghost before = text::views(out@);
            out.push(v[i].clone());
            proof {
                assert(text::views(out@) =~= before.push(v@[i as int]@));
            }
        }
        i = i + 1;
    }
    proof {
        assert(all.take(v.len() as int) =~= all);
    }
    out
}

/// The send time after the edit: cleared, the given value trimmed (empty
/// means none), or the stored one.
pub open spec fn edited_schedule(clear: bool, given: Option<String>, stored: Option<String>) -> Option<
    Seq<char>,
> {
    if clear {
        None
    } else {
        match given {
            Some(v) => if text::trim(v@).len() == 0 {
                None
            } else {
                Some(text::trim(v@))
            },
            None => text::opt_view(stored),
        }
    }
}

fn edit_list(given: Option<Vec<String>>, stored: Vec<String>) -> (res: Vec<String>)
    ensures
        text::views(res@) == edited_list(given, stored),
{
    match given {
        Some(v) => non_empty(helpers::normalize_emails(v.as_slice())),
        None => stored,
    }
}

pub fn draft_edit_update(draft: DraftRecord, args: DraftEditArgs) -> (res: DraftUpdate)
    ensures
        res.account_email@ == match args.account {
            Some(a) => helpers::normalized_email(a@),
            None => draft.account_email@,
        },
        res.subject@ == match args.subject {
            Some(s) => s@,
            None => draft.subject@,
        },
        text::opt_view(res.text_body) == match args.text {
            Some(t) => Some(t@),
            None => text::opt_view(draft.text_body),
        },
        text::opt_view(res.html_body) == (if args.clear_html {
            None
        } else {
            match args.html {
                Some(h) => Some(h@),
                None => text::opt_view(draft.html_body),
            }
        }),
        text::views(res.to@) == edited_list(args.to, draft.to),
        text::views(res.cc@) == edited_list(args.cc, draft.cc),
        text::views(res.bcc@) == edited_list(args.bcc, draft.bcc),
        text::views(res.reply_to@) == edited_list(args.reply_to, draft.reply_to),
        text::opt_view(res.scheduled_at) == edited_schedule(
            args.clear_schedule,
            args.scheduled_at,
            draft.scheduled_at,
        ),
        res.replace_attachments == (args.attachments@.len() > 0 || args.clear_attachments),
{
    let subject = match args.subject {
        Some(s) => s,
        None => draft.subject,
    };
    let text_body = match args.text {
        Some(t) => Some(t),
        None => draft.text_body,
    };
    let html_body = if args.clear_html {
        None
    } else {
        match args.html {
            Some(h) => Some(h),
            None => draft.html_body,
        }
    };
    let to = edit_list(args.to, draft.to);
    let cc = edit_list(args.cc, draft.cc);
    let bcc = edit_list(args.bcc, draft.bcc);
    let reply_to = edit_list(args.reply_to, draft.reply_to);
    let scheduled_at = if args.clear_schedule {
        None
    } else {
        match args.scheduled_at {
            Some(v) => {
                let t = text::trim_str(v.as_str());
                if t.as_str().is_empty() {
                    None
                } else {
                    Some(t)
                }
            },
            None => draft.scheduled_at,
        }
    };
    let account_email = match args.account {
        Some(a) => helpers::normalize_email(a.as_str()),
        None => draft.account_email,
    };
    let replace_attachments = args.attachments.len() > 0 || args.clear_attachments;
    DraftUpdate {
        account_email,
        subject,
        text_body,
        html_body,
        to,
        cc,
        bcc,
        reply_to,
        scheduled_at,
        replace_attachments,
    }
}

/// "draft {id} not found" when nothing was deleted.
pub fn require_deleted(id: &str, count: usize) -> (res: Result<(), String>)
    ensures
        count == 0 <==> res is Err,
        res matches Err(m) ==> m@ == "draft "@ + id@ + " not found"@,
{
    if count == 0 {
        let mut m = text::copy_str("draft ");
        text::push_str(&mut m, id);
        text::push_str(&mut m, " not found");
        return Err(m);
    }
    Ok(())
}

} // verus!
