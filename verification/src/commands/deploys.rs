//! `aoraki deploys`: the recent deploys of an app, from the record on its box
//! or from the gateway.

use crate::context::Ctx;
use crate::json::{json_of, Json, Tree};
use crate::text::{
    decimal, line_seq, lines, pad_right, padded_right, same, short, short_id, show, show_signed,
    signed_decimal, views,
};
use vstd::prelude::*;
use vstd::string::*;

verus! {

/// A row of the table.
pub open spec fn table_row(time: Seq<char>, status: Seq<char>, sha: Seq<char>, duration: Seq<char>) -> Seq<
    char,
> {
    padded_right(time, 22) + " "@ + padded_right(status, 10) + " "@ + padded_right(sha, 9) + " "@
        + duration
}

fn show_row(time: &str, status: &str, sha: &str, duration: &str) -> (r: String)
    ensures
        r@ == table_row(time@, status@, sha@, duration@),
{
    pad_right(time, 22).concat(" ").concat(pad_right(status, 10).as_str()).concat(" ").concat(
        pad_right(sha, 9).as_str(),
    ).concat(" ").concat(duration)
}

/// The head of the table.
pub fn header() -> (r: String)
    ensures
        r@ == table_row("TIME"@, "STATUS"@, "SHA"@, "DURATION"@),
{
    show_row("TIME", "STATUS", "SHA", "DURATION")
}

// ---------------------------------------------------------------------
// From the gateway
// ---------------------------------------------------------------------

/// The path at the gateway for an environment's deploys.
pub fn gateway_path(ctx: &Ctx, limit: usize) -> (r: String)
    ensures
        r@ == "/deploys?app="@ + ctx.repo.app.name@ + "&environment="@ + ctx.env_name@ + "&limit="@
            + decimal(limit as nat),
{
    "/deploys?app=".to_string().concat(ctx.app()).concat("&environment=").concat(
        ctx.env_name.as_str(),
    ).concat("&limit=").concat(show(limit as u64).as_str())
}

/// The row for a deploy that the gateway tells of.
pub open spec fn gateway_row(rec: Tree) -> Seq<char> {
    table_row(
        rec.get("created_at"@).text_or("?"@),
        rec.get("status"@).text_or("?"@),
        short_id(rec.get("commit_sha"@).text_or("?"@)),
        match rec.get("duration_secs"@).signed() {
            Some(d) => signed_decimal(d as int) + "s"@,
            None => "-"@,
        },
    )
}

/// The rows for the deploys that the gateway tells of.
pub fn gateway_rows(answer: &Json) -> (r: Vec<String>)
    ensures
        views(r@) == answer.tree().get("data"@).items().map_values(|rec: Tree| gateway_row(rec)),
{
    let n: usize = answer.count_at("data");
    let ghost all = answer.tree().get("data"@).items().map_values(|rec: Tree| gateway_row(rec));
    let mut out: Vec<String> = Vec::new();
    let mut i: usize = 0;
    while i < n
        invariant
            i <= n,
            n == answer.tree().get("data"@).items().len(),
            all == answer.tree().get("data"@).items().map_values(|rec: Tree| gateway_row(rec)),
            views(out@) == all.take(i as int),
        decreases n - i,
    {
        let rec = answer.item_at("data", i);
        let duration = match rec.signed_at("duration_secs") {
            Some(d) => show_signed(d).concat("s"),
            None => "-".to_string(),
        };
        let line = show_row(
            rec.text_or("created_at", "?"),
            rec.text_or("status", "?"),
            short(rec.text_or("commit_sha", "?")).as_str(),
            duration.as_str(),
        );
        let ghost text = line@;
        let ghost before = views(out@);
        out.push(line);
        proof {
            assert(text == all[i as int]);
            assert(views(out@) =~= before.push(text));
            assert(all.take(i + 1) =~= all.take(i as int).push(all[i as int]));
        }
        i = i + 1;
    }
    proof {
        assert(all.take(i as int) =~= all);
    }
    out
}

/// The line for an app of which the gateway knows no deploy.
pub fn none_at_gateway(ctx: &Ctx) -> (r: String)
    ensures
        r@ == "No gateway deploys recorded for "@ + ctx.repo.app.name@ + " yet."@,
{
    "No gateway deploys recorded for ".to_string().concat(ctx.app()).concat(" yet.")
}

// ---------------------------------------------------------------------
// From the record on the box
// ---------------------------------------------------------------------

/// The command that reads the end of the record. A deploy has up to two lines
/// in it, one for its start and one for its end.
pub fn tail_command(ctx: &Ctx, limit: usize) -> (r: String)
    requires
        limit * 2 <= usize::MAX,
    ensures
        r@ == "tail -n "@ + decimal((limit * 2) as nat) + " "@ + ("/data/logs/aoraki-deploys/"@
            + ctx.repo.app.name@ + ".jsonl"@) + " 2>/dev/null || true"@,
{
    let n: usize = limit * 2;
    "tail -n ".to_string().concat(show(n as u64).as_str()).concat(" ").concat(
        ctx.deploy_log().as_str(),
    ).concat(" 2>/dev/null || true")
}

/// The line for an app of which its box knows no deploy.
pub fn none_on_box(ctx: &Ctx) -> (r: String)
    requires
        ctx.wf(),
    ensures
        r@ == "No aoraki deploys recorded for "@ + ctx.repo.app.name@ + " on "@
            + ctx.env_spec().server@ + " yet."@,
{
    "No aoraki deploys recorded for ".to_string().concat(ctx.app()).concat(" on ").concat(
        ctx.env().server.as_str(),
    ).concat(" yet.")
}

/// The row for a line of the record.
pub open spec fn box_row(rec: Tree) -> Seq<char> {
    table_row(
        rec.get("time"@).text_or("?"@),
        rec.get("status"@).text_or("?"@),
        short_id(rec.get("sha"@).text_or("?"@)),
        match rec.get("duration_secs"@).unsigned() {
            Some(d) => decimal(d as nat) + "s"@,
            None => "-"@,
        },
    )
}

/// The rows for the end of the record, the latest first, after `shown` others:
/// lines that are no JSON and the starts of deploys are passed over, and the
/// table ends with the row that reaches the limit.
pub open spec fn box_rows(records: Seq<Option<Tree>>, limit: nat, shown: nat) -> Seq<Seq<char>>
    decreases records.len(),
{
    if records.len() == 0 {
        Seq::empty()
    } else {
        let rest = records.drop_last();
        match records.last() {
            None => box_rows(rest, limit, shown),
            Some(rec) => if rec.get("status"@).text_or("?"@) == "started"@ {
                box_rows(rest, limit, shown)
            } else if shown + 1 >= limit {
                seq![box_row(rec)]
            } else {
                seq![box_row(rec)] + box_rows(rest, limit, shown + 1)
            },
        }
    }
}

/// What lines of the record say.
pub open spec fn record_trees(records: Seq<Option<Json>>) -> Seq<Option<Tree>> {
    records.map_values(
        |rec: Option<Json>|
            match rec {
                Some(json) => Some(json.tree()),
                None => None,
            },
    )
}

/// The rows for what the lines of the record say.
pub fn rows_of(records: &Vec<Option<Json>>, limit: usize) -> (r: Vec<String>)
    ensures
        views(r@) == box_rows(record_trees(records@), limit as nat, 0),
        ({
            let ended = record_trees(records@).filter(
                |rec: Option<Tree>|
                    rec is Some && rec->0.get("status"@).text() != Some("started"@),
            );
            &&& ended.len() < limit ==> r@.len() == ended.len()
            &&& ended.len() >= limit && limit > 0 ==> r@.len() == limit
            &&& forall|k: int|
                0 <= k < r@.len() ==> #[trigger] views(r@)[k] == box_row(
                    ended[ended.len() - 1 - k]->0,
                )
        }),
{
    let ghost all = record_trees(records@);
    let mut out: Vec<String> = Vec::new();
    let mut shown: usize = 0;
    let mut i: usize = records.len();
    proof {
        assert(all.take(i as int) =~= all);
        assert(views(out@) + box_rows(all, limit as nat, 0) =~= box_rows(all, limit as nat, 0));
    }
    while i > 0
        invariant
            i <= records.len(),
            shown <= records.len() - i,
            all == record_trees(records@),
            box_rows(all, limit as nat, 0) == views(out@) + box_rows(
                all.take(i as int),
                limit as nat,
                shown as nat,
            ),
        decreases i,
    {
        let ghost part = all.take(i as int);
        proof {
            assert(part.drop_last() =~= all.take(i - 1));
            assert(part.last() == all[i - 1]);
        }
        i = i - 1;
        if let Some(rec) = &records[i] {
            let status = rec.text_or("status", "?");
            if !same(status, "started") {
                let duration = match rec.unsigned_at("duration_secs") {
                    Some(d) => show(d).concat("s"),
                    None => "-".to_string(),
                };
                let line = show_row(
                    rec.text_or("time", "?"),
                    status,
                    short(rec.text_or("sha", "?")).as_str(),
                    duration.as_str(),
                );
                let ghost text = line@;
                let ghost before = views(out@);
                out.push(line);
                proof {
                    assert(text == box_row(rec.tree()));
                    assert(views(out@) =~= before.push(text));
                }
                shown = shown + 1;
                if shown >= limit {
                    proof {
                        assert(views(out@) =~= before + seq![text]);
                        every_ended_deploy_is_shown(all, limit as nat);
                    }
                    return out;
                }
                proof {
                    let rest = box_rows(all.take(i as int), limit as nat, shown as nat);
                    assert(before + (seq![text] + rest) =~= views(out@) + rest);
                }
            }
        }
    }
    proof {
        assert(views(out@) + Seq::<Seq<char>>::empty() =~= views(out@));
        every_ended_deploy_is_shown(all, limit as nat);
    }
    out
}

/// What the lines of a text say, each as JSON where it is JSON.
pub open spec fn parsed_lines(raw: Seq<char>) -> Seq<Option<Tree>> {
    line_seq(raw).map_values(|line: Seq<char>| json_of(line))
}

/// The rows for the end of the record.
pub fn history(raw: &str, limit: usize) -> (r: Vec<String>)
    ensures
        views(r@) == box_rows(parsed_lines(raw@), limit as nat, 0),
{
    let list = lines(raw);
    let ghost all = parsed_lines(raw@);
    let mut records: Vec<Option<Json>> = Vec::new();
    let mut i: usize = 0;
    while i < list.len()
        invariant
            i <= list.len(),
            views(list@) == line_seq(raw@),
            all == parsed_lines(raw@),
            all.len() == list.len(),
            record_trees(records@) == all.take(i as int),
        decreases list.len() - i,
    {
        let ghost before = record_trees(records@);
        let rec = Json::parse(list[i].as_str());
        proof {
            assert(views(list@)[i as int] == list@[i as int]@);
            assert(all[i as int] == json_of(list@[i as int]@));
        }
        records.push(rec);
        proof {
            assert(record_trees(records@) =~= before.push(all[i as int]));
            assert(all.take(i + 1) =~= all.take(i as int).push(all[i as int]));
        }
        i = i + 1;
    }
    proof {
        assert(all.take(i as int) =~= all);
    }
    rows_of(&records, limit)
}

/// The table never has more rows than were asked for.
pub proof fn history_is_limited(records: Seq<Option<Tree>>, limit: nat, shown: nat)
    requires
        shown < limit,
    ensures
        box_rows(records, limit, shown).len() <= limit - shown,
    decreases records.len(),
{
    if records.len() > 0 {
        history_is_limited(records.drop_last(), limit, shown);
        if shown + 1 < limit {
            history_is_limited(records.drop_last(), limit, shown + 1);
        }
    }
}

/// Every line of the record that is JSON and does not tell of a start has its
/// row, the latest first, until the limit is reached; a limit of none shows
/// one. No other line has one.
pub proof fn every_ended_deploy_is_shown(records: Seq<Option<Tree>>, limit: nat)
    ensures
        ({
            let ended = records.filter(
                |rec: Option<Tree>|
                    rec is Some && rec->0.get("status"@).text() != Some("started"@),
            );
            let most = if limit == 0 {
                1
            } else {
                limit
            };
            let rows = box_rows(records, limit, 0);
            &&& rows.len() == (if ended.len() < most {
                ended.len()
            } else {
                most
            })
            &&& forall|k: int|
                0 <= k < rows.len() ==> #[trigger] rows[k] == box_row(
                    ended[ended.len() - 1 - k]->0,
                )
        }),
{
    lemma_rows_from(records, limit, 0);
}

proof fn lemma_rows_from(records: Seq<Option<Tree>>, limit: nat, shown: nat)
    requires
        shown < limit || (shown == 0 && limit == 0),
    ensures
        ({
            let ended = records.filter(
                |rec: Option<Tree>|
                    rec is Some && rec->0.get("status"@).text() != Some("started"@),
            );
            let most = if limit == 0 {
                1
            } else {
                limit - shown
            };
            let rows = box_rows(records, limit, shown);
            &&& rows.len() == (if ended.len() < most {
                ended.len() as int
            } else {
                most
            })
            &&& forall|k: int|
                0 <= k < rows.len() ==> #[trigger] rows[k] == box_row(
                    ended[ended.len() - 1 - k]->0,
                )
        }),
    decreases records.len(),
{
    let is_end = |rec: Option<Tree>|
        rec is Some && rec->0.get("status"@).text() != Some("started"@);
    reveal(Seq::filter);
    reveal_strlit("?");
    reveal_strlit("started");
    assert("?"@.len() != "started"@.len());
    let ended = records.filter(is_end);
    let rows = box_rows(records, limit, shown);
    if records.len() > 0 {
        let rest = records.drop_last();
        let before = rest.filter(is_end);
        if is_end(records.last()) {
            assert(ended == before.push(records.last()));
            if shown + 1 < limit {
                lemma_rows_from(rest, limit, shown + 1);
                let below = box_rows(rest, limit, shown + 1);
                assert forall|k: int| 0 <= k < rows.len() implies #[trigger] rows[k] == box_row(
                    ended[ended.len() - 1 - k]->0,
                ) by {
                    if k > 0 {
                        assert(rows[k] == below[k - 1]);
                        assert(ended[ended.len() - 1 - k] == before[before.len() - k]);
                    }
                }
            }
        } else {
            assert(ended == before);
            lemma_rows_from(rest, limit, shown);
            assert(rows == box_rows(rest, limit, shown));
        }
    }
}

/// A row shows when a deploy ended, how, of which commit, and how long it
/// took; what a record does not tell is shown as not known.
pub proof fn a_row_shows_its_record(rec: Tree)
    ensures
        ({
            let told = |key: Seq<char>|
                match rec.get(key) {
                    Tree::Text(text) => text,
                    _ => "?"@,
                };
            let took = match rec.get("duration_secs"@) {
                Tree::Number(Some(seconds), _) => decimal(seconds as nat) + "s"@,
                _ => "-"@,
            };
            box_row(rec) == padded_right(told("time"@), 22) + " "@ + padded_right(
                told("status"@),
                10,
            ) + " "@ + padded_right(short_id(told("sha"@)), 9) + " "@ + took
        }),
        ({
            let told = |key: Seq<char>|
                match rec.get(key) {
                    Tree::Text(text) => text,
                    _ => "?"@,
                };
            let took = match rec.get("duration_secs"@) {
                Tree::Number(_, Some(seconds)) => signed_decimal(seconds as int) + "s"@,
                _ => "-"@,
            };
            gateway_row(rec) == padded_right(told("created_at"@), 22) + " "@ + padded_right(
                told("status"@),
                10,
            ) + " "@ + padded_right(short_id(told("commit_sha"@)), 9) + " "@ + took
        }),
{
}

/// What the lines of a text say: as many as there are lines, each as JSON.
pub proof fn every_line_is_read(raw: Seq<char>, i: int)
    requires
        0 <= i < line_seq(raw).len(),
    ensures
        parsed_lines(raw).len() == line_seq(raw).len(),
        parsed_lines(raw)[i] == json_of(line_seq(raw)[i]),
{
}

} // verus!
