//! The filters behind `inbox list` and `inbox search`, as SQL conditions with
//! their bound parameters, and the placeholder lists of bulk updates.
use vstd::prelude::*;

use crate::cli::{InboxListArgs, InboxSearchArgs};
use crate::helpers;
use crate::text;

verus! {

/// A value bound to a `?` placeholder.
#[derive(Clone, Debug)]
pub enum SqlParam {
    Int(i64),
    Text(String),
}

/// A parameter as plain values: `Ok` for an integer, `Err` for text.
pub open spec fn param_view(p: SqlParam) -> Result<int, Seq<char>> {
    match p {
        SqlParam::Int(i) => Ok(i as int),
        SqlParam::Text(t) => Err(t@),
    }
}

pub open spec fn params_view(v: Seq<SqlParam>) -> Seq<Result<int, Seq<char>>> {
    v.map_values(|p: SqlParam| param_view(p))
}

/// `?a,?a+1,...` for `n` parameters numbered from `first`.
pub open spec fn placeholder_text(n: nat, first: nat) -> Seq<char>
    decreases n,
{
    if n == 0 {
        Seq::empty()
    } else if n == 1 {
        "?"@ + text::digits(first)
    } else {
        placeholder_text((n - 1) as nat, first) + ",?"@ + text::digits((first + n - 1) as nat)
    }
}

pub fn placeholders(n: u64, first: u64) -> (res: String)
    requires
        first + n <= u64::MAX,
    ensures
        res@ == placeholder_text(n as nat, first as nat),
{
    let mut out = String::new();
    let mut i: u64 = 0;
    while i < n
        invariant
            i <= n,
            first + n <= u64::MAX,
            out@ == placeholder_text(i as nat, first as nat),
        decreases n - i,
    {
        if i == 0 {
            text::push_str(&mut out, "?");
        } else {
            text::push_str(&mut out, ",?");
        }
        text::push_u64(&mut out, first + i);
        proof {
            if i == 0 {
                assert(out@ =~= placeholder_text(1, first as nat));
            }
        }
        i = i + 1;
    }
    out
}

fn text_param(s: &str) -> (res: SqlParam)
    ensures
        param_view(res) == Err::<int, Seq<char>>(s@),
{
    SqlParam::Text(text::copy_str(s))
}

// ── inbox list ─────────────────────────────────────────────────────────────

/// The conditions of an inbox listing, in order, each with the parameters
/// it binds. `now` is the current time (RFC 3339); `cursor_created_at` is
/// the creation time of the `--after` message, looked up beforehand.
pub open spec fn list_conditions(
    args: InboxListArgs,
    now: Seq<char>,
    cursor_created_at: Option<Seq<char>>,
) -> Seq<(Seq<char>, Seq<Result<int, Seq<char>>>)> {
    let base = seq![("m.archived = ?"@, seq![Ok::<int, Seq<char>>(if args.archived { 1int } else { 0int })])];
    let with_account = match args.account {
        Some(a) => base.push(("m.account_email = ?"@, seq![Err::<int, Seq<char>>(helpers::normalized_email(a@))])),
        None => base,
    };
    let with_unread = if args.unread {
        with_account.push(("m.is_read = 0"@, Seq::empty()))
    } else {
        with_account
    };
    let with_starred = if args.starred {
        with_unread.push(("m.starred = 1"@, Seq::empty()))
    } else {
        with_unread
    };
    let with_snooze = if args.snoozed {
        with_starred.push(("m.snoozed_until IS NOT NULL AND m.snoozed_until > ?"@, seq![Err::<int, Seq<char>>(now)]))
    } else {
        with_starred.push(("(m.snoozed_until IS NULL OR m.snoozed_until <= ?)"@, seq![Err::<int, Seq<char>>(now)]))
    };
    match (args.after, cursor_created_at) {
        (Some(id), Some(c)) => with_snooze.push((
            "(m.created_at < ? OR (m.created_at = ? AND m.id < ?))"@,
            seq![Err::<int, Seq<char>>(c), Err::<int, Seq<char>>(c), Ok::<int, Seq<char>>(id as int)],
        )),
        _ => with_snooze,
    }
}

/// A query's conditions and the parameters they bind, in order.
#[derive(Debug)]
pub struct QueryPlan {
    pub conditions: Vec<String>,
    pub params: Vec<SqlParam>,
}

pub open spec fn plan_matches(p: QueryPlan, conds: Seq<(Seq<char>, Seq<Result<int, Seq<char>>>)>) -> bool {
    &&& text::views(p.conditions@) == conds.map_values(|c: (Seq<char>, Seq<Result<int, Seq<char>>>)| c.0)
    &&& params_view(p.params@) == flat_params(conds)
}

pub open spec fn flat_params(conds: Seq<(Seq<char>, Seq<Result<int, Seq<char>>>)>) -> Seq<Result<int, Seq<char>>>
    decreases conds.len(),
{
    if conds.len() == 0 {
        Seq::empty()
    } else {
        flat_params(conds.drop_last()) + conds.last().1
    }
}

fn add_condition(plan: &mut QueryPlan, cond: &str, params: Vec<SqlParam>)
    ensures
        text::views(final(plan).conditions@) == text::views(old(plan).conditions@).push(cond@),
        params_view(final(plan).params@) == params_view(old(plan).params@) + params_view(params@),
{
    let ghost c0 = text::views(plan.conditions@);
    let ghost p0 = params_view(plan.params@);
    plan.conditions.push(text::copy_str(cond));
    proof {
        assert(text::views(plan.conditions@) =~= c0.push(cond@));
    }
    let mut i: usize = 0;
    while i < params.len()
        invariant
            i <= params.len(),
            text::views(plan.conditions@) == c0.push(cond@),
            params_view(plan.params@) == p0 + params_view(params@).take(i as int),
        decreases params.len() - i,
    {
        let ghost before = plan.params@;
        plan.params.push(params[i].clone_param());
        proof {
            assert(params_view(plan.params@) =~= params_view(before).push(param_view(params@[i as int])));
            assert(params_view(params@).take(i + 1) =~= params_view(params@).take(i as int).push(
                param_view(params@[i as int]),
            ));
        }
        i = i + 1;
    }
    proof {
        assert(params_view(params@).take(params.len() as int) =~= params_view(params@));
    }
}

impl SqlParam {
    pub fn clone_param(&self) -> (res: SqlParam)
        ensures
            param_view(res) == param_view(*self),
    {
        match self {
            SqlParam::Int(i) => SqlParam::Int(*i),
            SqlParam::Text(t) => SqlParam::Text(text::copy_str(t.as_str())),
        }
    }
}

proof fn lemma_plan_step(
    p0: QueryPlan,
    p1: QueryPlan,
    conds: Seq<(Seq<char>, Seq<Result<int, Seq<char>>>)>,
    c: (Seq<char>, Seq<Result<int, Seq<char>>>),
)
    requires
        plan_matches(p0, conds),
        text::views(p1.conditions@) == text::views(p0.conditions@).push(c.0),
        params_view(p1.params@) == params_view(p0.params@) + c.1,
    ensures
        plan_matches(p1, conds.push(c)),
{
    assert(conds.push(c).drop_last() =~= conds);
    assert(conds.push(c).map_values(|x: (Seq<char>, Seq<Result<int, Seq<char>>>)| x.0) =~= conds.map_values(
        |x: (Seq<char>, Seq<Result<int, Seq<char>>>)| x.0,
    ).push(c.0));
}

pub fn inbox_list_plan(args: &InboxListArgs, now: &str, cursor_created_at: Option<&str>) -> (res: QueryPlan)
    ensures
        plan_matches(
            res,
            list_conditions(
                *args,
                now@,
                match cursor_created_at {
                    Some(c) => Some(c@),
                    None => None,
                },
            ),
        ),
{
    let ghost cur = match cursor_created_at {
        Some(c) => Some(c@),
        None => None::<Seq<char>>,
    };
    let mut plan = QueryPlan { conditions: Vec::new(), params: Vec::new() };
    let ghost conds: Seq<(Seq<char>, Seq<Result<int, Seq<char>>>)> = Seq::empty();
    proof {
        assert(text::views(plan.conditions@) =~= Seq::<Seq<char>>::empty());
        assert(params_view(plan.params@) =~= Seq::<Result<int, Seq<char>>>::empty());
        assert(conds.map_values(|x: (Seq<char>, Seq<Result<int, Seq<char>>>)| x.0) =~= Seq::<Seq<char>>::empty());
    }
    let archived: i64 = if args.archived {
        1
    } else {
        0
    };
    let ghost p0 = plan;
    let ps = vec![SqlParam::Int(archived)];
    proof {
        assert(params_view(ps@) =~= seq![Ok::<int, Seq<char>>(archived as int)]);
    }
    add_condition(&mut plan, "m.archived = ?", ps);
    proof {
        lemma_plan_step(p0, plan, conds, ("m.archived = ?"@, seq![Ok::<int, Seq<char>>(archived as int)]));
        conds = conds.push(("m.archived = ?"@, seq![Ok::<int, Seq<char>>(archived as int)]));
    }
    match &args.account {
        Some(a) => {
            let ghost p0 = plan;
            let e = helpers::normalize_email(a.as_str());
            let ps = vec![text_param(e.as_str())];
            proof {
                assert(params_view(ps@) =~= seq![Err::<int, Seq<char>>(e@)]);
            }
            add_condition(&mut plan, "m.account_email = ?", ps);
            proof {
                lemma_plan_step(p0, plan, conds, ("m.account_email = ?"@, seq![Err::<int, Seq<char>>(e@)]));
                conds = conds.push(("m.account_email = ?"@, seq![Err::<int, Seq<char>>(e@)]));
            }
        },
        None => {},
    }
    if args.unread {
        let ghost p0 = plan;
        let ps: Vec<SqlParam> = Vec::new();
        proof {
            assert(params_view(ps@) =~= Seq::<Result<int, Seq<char>>>::empty());
        }
        add_condition(&mut plan, "m.is_read = 0", ps);
        proof {
            lemma_plan_step(p0, plan, conds, ("m.is_read = 0"@, Seq::empty()));
            conds = conds.push(("m.is_read = 0"@, Seq::empty()));
        }
    }
    if args.starred {
        let ghost p0 = plan;
        let ps: Vec<SqlParam> = Vec::new();
        proof {
            assert(params_view(ps@) =~= Seq::<Result<int, Seq<char>>>::empty());
        }
        add_condition(&mut plan, "m.starred = 1", ps);
        proof {
            lemma_plan_step(p0, plan, conds, ("m.starred = 1"@, Seq::empty()));
            conds = conds.push(("m.starred = 1"@, Seq::empty()));
        }
    }
    let ghost p0 = plan;
    let ps = vec![text_param(now)];
    proof {
        assert(params_view(ps@) =~= seq![Err::<int, Seq<char>>(now@)]);
    }
    if args.snoozed {
        add_condition(&mut plan, "m.snoozed_until IS NOT NULL AND m.snoozed_until > ?", ps);
        proof {
            lemma_plan_step(p0, plan, conds, ("m.snoozed_until IS NOT NULL AND m.snoozed_until > ?"@, seq![Err::<int, Seq<char>>(now@)]));
            conds = conds.push(("m.snoozed_until IS NOT NULL AND m.snoozed_until > ?"@, seq![Err::<int, Seq<char>>(now@)]));
        }
    } else {
        add_condition(&mut plan, "(m.snoozed_until IS NULL OR m.snoozed_until <= ?)", ps);
        proof {
            lemma_plan_step(p0, plan, conds, ("(m.snoozed_until IS NULL OR m.snoozed_until <= ?)"@, seq![Err::<int, Seq<char>>(now@)]));
            conds = conds.push(("(m.snoozed_until IS NULL OR m.snoozed_until <= ?)"@, seq![Err::<int, Seq<char>>(now@)]));
        }
    }
    match (args.after, cursor_created_at) {
        (Some(id), Some(c)) => {
            let ghost p0 = plan;
            let ps = vec![text_param(c), text_param(c), SqlParam::Int(id)];
            let ghost cp = seq![Err::<int, Seq<char>>(c@), Err::<int, Seq<char>>(c@), Ok::<int, Seq<char>>(id as int)];
            proof {
                assert(params_view(ps@) =~= cp);
            }
            add_condition(&mut plan, "(m.created_at < ? OR (m.created_at = ? AND m.id < ?))", ps);
            proof {
                lemma_plan_step(p0, plan, conds, ("(m.created_at < ? OR (m.created_at = ? AND m.id < ?))"@, cp));
                conds = conds.push(("(m.created_at < ? OR (m.created_at = ? AND m.id < ?))"@, cp));
            }
        },
        _ => {},
    }
    proof {
        assert(conds =~= list_conditions(*args, now@, cur));
    }
    plan
}

// ── inbox search ───────────────────────────────────────────────────────────

pub open spec fn search_has_filter(args: InboxSearchArgs) -> bool {
    ||| text::trim(args.query@).len() > 0
    ||| args.from is Some
    ||| args.to is Some
    ||| args.subject is Some
    ||| args.has_attachment
    ||| args.unread
    ||| args.starred
    ||| args.account is Some
}

pub open spec fn like_pattern(s: Seq<char>) -> Seq<char> {
    "%"@ + s + "%"@
}

/// The conditions of a search, in order, each with its parameters: the
/// full-text match on the trimmed query, then the account, sender,
/// recipient and subject filters (substring matches), then the flags.
pub open spec fn search_conditions(args: InboxSearchArgs) -> Seq<(Seq<char>, Seq<Result<int, Seq<char>>>)> {
    let q = text::trim(args.query@);
    let c0: Seq<(Seq<char>, Seq<Result<int, Seq<char>>>)> = if q.len() > 0 {
        seq![("messages_fts MATCH ?"@, seq![Err::<int, Seq<char>>(q)])]
    } else {
        Seq::empty()
    };
    let c1 = match args.account {
        Some(a) => c0.push(("m.account_email = ?"@, seq![Err::<int, Seq<char>>(helpers::normalized_email(a@))])),
        None => c0,
    };
    let c2 = match args.from {
        Some(f) => c1.push(("m.from_addr LIKE ?"@, seq![Err::<int, Seq<char>>(like_pattern(f@))])),
        None => c1,
    };
    let c3 = match args.to {
        Some(t) => c2.push(("m.to_json LIKE ?"@, seq![Err::<int, Seq<char>>(like_pattern(t@))])),
        None => c2,
    };
    let c4 = match args.subject {
        Some(s) => c3.push(("m.subject LIKE ?"@, seq![Err::<int, Seq<char>>(like_pattern(s@))])),
        None => c3,
    };
    let c5 = if args.has_attachment {
        c4.push(("EXISTS (SELECT 1 FROM attachments a WHERE a.message_id = m.id)"@, Seq::empty()))
    } else {
        c4
    };
    let c6 = if args.unread {
        c5.push(("m.is_read = 0"@, Seq::empty()))
    } else {
        c5
    };
    if args.starred {
        c6.push(("m.starred = 1"@, Seq::empty()))
    } else {
        c6
    }
}

pub open spec fn search_error() -> Seq<char> {
    "inbox search needs a query or at least one filter flag (--from, --subject, --has-attachment, --unread, --starred, --account)"@
}

fn like_param(s: &str) -> (res: SqlParam)
    ensures
        param_view(res) == Err::<int, Seq<char>>(like_pattern(s@)),
{
    let mut p = text::copy_str("%");
    text::push_str(&mut p, s);
    text::push_str(&mut p, "%");
    SqlParam::Text(p)
}

/// The search's plan; whether the full-text index is joined is whether the
/// plan's first condition is the full-text match.
pub fn inbox_search_plan(args: &InboxSearchArgs) -> (res: Result<QueryPlan, String>)
    ensures
        search_has_filter(*args) ==> (res matches Ok(p) && plan_matches(p, search_conditions(*args))),
        !search_has_filter(*args) ==> (res matches Err(m) && m@ == search_error()),
{
    let q = text::trim_str(args.query.as_str());
    let has_any = !q.as_str().is_empty() || args.from.is_some() || args.to.is_some()
        || args.subject.is_some() || args.has_attachment || args.unread || args.starred
        || args.account.is_some();
    if !has_any {
        return Err(text::copy_str(
            "inbox search needs a query or at least one filter flag (--from, --subject, --has-attachment, --unread, --starred, --account)",
        ));
    }
    let mut plan = QueryPlan { conditions: Vec::new(), params: Vec::new() };
    let ghost conds: Seq<(Seq<char>, Seq<Result<int, Seq<char>>>)> = Seq::empty();
    proof {
        assert(text::views(plan.conditions@) =~= Seq::<Seq<char>>::empty());
        assert(params_view(plan.params@) =~= Seq::<Result<int, Seq<char>>>::empty());
        assert(conds.map_values(|x: (Seq<char>, Seq<Result<int, Seq<char>>>)| x.0) =~= Seq::<Seq<char>>::empty());
    }
    if !q.as_str().is_empty() {
        let ghost p0 = plan;
        let ps = vec![text_param(q.as_str())];
        proof {
            assert(params_view(ps@) =~= seq![Err::<int, Seq<char>>(q@)]);
        }
        add_condition(&mut plan, "messages_fts MATCH ?", ps);
        proof {
            lemma_plan_step(p0, plan, conds, ("messages_fts MATCH ?"@, seq![Err::<int, Seq<char>>(q@)]));
            conds = conds.push(("messages_fts MATCH ?"@, seq![Err::<int, Seq<char>>(q@)]));
        }
    }
    match &args.account {
        Some(a) => {
            let ghost p0 = plan;
            let e = helpers::normalize_email(a.as_str());
            let ps = vec![text_param(e.as_str())];
            proof {
                assert(params_view(ps@) =~= seq![Err::<int, Seq<char>>(e@)]);
            }
            add_condition(&mut plan, "m.account_email = ?", ps);
            proof {
                lemma_plan_step(p0, plan, conds, ("m.account_email = ?"@, seq![Err::<int, Seq<char>>(e@)]));
                conds = conds.push(("m.account_email = ?"@, seq![Err::<int, Seq<char>>(e@)]));
            }
        },
        None => {},
    }
    match &args.from {
        Some(f) => {
            let ghost p0 = plan;
            let ps = vec![like_param(f.as_str())];
            proof {
                assert(params_view(ps@) =~= seq![Err::<int, Seq<char>>(like_pattern(f@))]);
            }
            add_condition(&mut plan, "m.from_addr LIKE ?", ps);
            proof {
                lemma_plan_step(p0, plan, conds, ("m.from_addr LIKE ?"@, seq![Err::<int, Seq<char>>(like_pattern(f@))]));
                conds = conds.push(("m.from_addr LIKE ?"@, seq![Err::<int, Seq<char>>(like_pattern(f@))]));
            }
        },
        None => {},
    }
    match &args.to {
        Some(t) => {
            let ghost p0 = plan;
            let ps = vec![like_param(t.as_str())];
            proof {
                assert(params_view(ps@) =~= seq![Err::<int, Seq<char>>(like_pattern(t@))]);
            }
            add_condition(&mut plan, "m.to_json LIKE ?", ps);
            proof {
                lemma_plan_step(p0, plan, conds, ("m.to_json LIKE ?"@, seq![Err::<int, Seq<char>>(like_pattern(t@))]));
                conds = conds.push(("m.to_json LIKE ?"@, seq![Err::<int, Seq<char>>(like_pattern(t@))]));
            }
        },
        None => {},
    }
    match &args.subject {
        Some(s) => {
            let ghost p0 = plan;
            let ps = vec![like_param(s.as_str())];
            proof {
                assert(params_view(ps@) =~= seq![Err::<int, Seq<char>>(like_pattern(s@))]);
            }
            add_condition(&mut plan, "m.subject LIKE ?", ps);
            proof {
                lemma_plan_step(p0, plan, conds, ("m.subject LIKE ?"@, seq![Err::<int, Seq<char>>(like_pattern(s@))]));
                conds = conds.push(("m.subject LIKE ?"@, seq![Err::<int, Seq<char>>(like_pattern(s@))]));
            }
        },
        None => {},
    }
    if args.has_attachment {
        let ghost p0 = plan;
        let ps: Vec<SqlParam> = Vec::new();
        proof {
            assert(params_view(ps@) =~= Seq::<Result<int, Seq<char>>>::empty());
        }
        add_condition(&mut plan, "EXISTS (SELECT 1 FROM attachments a WHERE a.message_id = m.id)", ps);
        proof {
            lemma_plan_step(p0, plan, conds, ("EXISTS (SELECT 1 FROM attachments a WHERE a.message_id = m.id)"@, Seq::empty()));
            conds = conds.push(("EXISTS (SELECT 1 FROM attachments a WHERE a.message_id = m.id)"@, Seq::empty()));
        }
    }
    if args.unread {
        let ghost p0 = plan;
        let ps: Vec<SqlParam> = Vec::new();
        proof {
            assert(params_view(ps@) =~= Seq::<Result<int, Seq<char>>>::empty());
        }
        add_condition(&mut plan, "m.is_read = 0", ps);
        proof {
            lemma_plan_step(p0, plan, conds, ("m.is_read = 0"@, Seq::empty()));
            conds = conds.push(("m.is_read = 0"@, Seq::empty()));
        }
    }
    if args.starred {
        let ghost p0 = plan;
        let ps: Vec<SqlParam> = Vec::new();
        proof {
            assert(params_view(ps@) =~= Seq::<Result<int, Seq<char>>>::empty());
        }
        add_condition(&mut plan, "m.starred = 1", ps);
        proof {
            lemma_plan_step(p0, plan, conds, ("m.starred = 1"@, Seq::empty()));
            conds = conds.push(("m.starred = 1"@, Seq::empty()));
        }
    }
    proof {
        assert(conds =~= search_conditions(*args));
    }
    Ok(plan)
}

} // verus!
