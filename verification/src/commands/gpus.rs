//! `aoraki gpus`, `gpu-logs` and `gpu-rm`: the GPUs that can be deployed on,
//! and what runs on them.

use crate::json::{Json, Tree};
use crate::text::{
    opt, pad_left, pad_right, padded_left, padded_right, show_signed, signed_decimal, views,
};
use vstd::prelude::*;
use vstd::string::*;

verus! {

pub const DIM: &'static str = "\u{1b}[2m";

pub const RESET: &'static str = "\u{1b}[0m";

/// A row of the table.
pub open spec fn table_row(name: Seq<char>, vram: Seq<char>, rate: Seq<char>, avail: Seq<char>) -> Seq<
    char,
> {
    padded_right(name, 28) + " "@ + padded_left(vram, 6) + " "@ + padded_left(rate, 9) + " "@
        + padded_left(avail, 7)
}

fn show_row(name: &str, vram: &str, rate: &str, avail: &str) -> (r: String)
    ensures
        r@ == table_row(name@, vram@, rate@, avail@),
{
    pad_right(name, 28).concat(" ").concat(pad_left(vram, 6).as_str()).concat(" ").concat(
        pad_left(rate, 9).as_str(),
    ).concat(" ").concat(pad_left(avail, 7).as_str())
}

/// The head of the table.
pub fn header() -> (r: Vec<String>)
    ensures
        views(r@) == seq![
            table_row("GPU"@, "VRAM"@, "$/hr"@, "avail"@),
            "──────────────────────────────────────────────────────"@,
        ],
{
    let first = show_row("GPU", "VRAM", "$/hr", "avail");
    let ghost a = first@;
    let mut out: Vec<String> = Vec::new();
    out.push(first);
    out.push("──────────────────────────────────────────────────────".to_string());
    proof {
        assert(views(out@) =~= seq![
            a,
            "──────────────────────────────────────────────────────"@,
        ]);
    }
    out
}

/// How many GPUs of a model are free.
pub open spec fn available(gpu: Tree) -> int {
    match gpu.get("available_count"@).signed() {
        Some(n) => n as int,
        None => 0,
    }
}

/// The row for a GPU model: dimmed where it cannot be had.
pub open spec fn gpu_row(gpu: Tree, rate: Option<Seq<char>>) -> Seq<char> {
    let line = table_row(
        gpu.get("name"@).text_or("?"@),
        match gpu.get("vram_gb"@).signed() {
            Some(v) => signed_decimal(v as int) + "G"@,
            None => "—"@,
        },
        match rate {
            Some(text) => text,
            None => "—"@,
        },
        signed_decimal(available(gpu)),
    );
    if available(gpu) > 0 && gpu.get("is_available"@).is_true() {
        line
    } else {
        DIM@ + line + RESET@
    }
}

/// The row for a GPU model, given its hourly rate as text.
pub fn row(gpu: &Json, rate: &Option<String>) -> (r: String)
    ensures
        r@ == gpu_row(gpu.tree(), opt(*rate)),
{
    let vram = match gpu.signed_at("vram_gb") {
        Some(v) => show_signed(v).concat("G"),
        None => "—".to_string(),
    };
    let rate_text = match rate {
        Some(text) => text.clone(),
        None => "—".to_string(),
    };
    let avail: i64 = match gpu.signed_at("available_count") {
        Some(n) => n,
        None => 0,
    };
    let line = show_row(
        gpu.text_or("name", "?"),
        vram.as_str(),
        rate_text.as_str(),
        show_signed(avail).as_str(),
    );
    if avail > 0 && gpu.true_at("is_available") {
        line
    } else {
        DIM.to_string().concat(line.as_str()).concat(RESET)
    }
}

/// The line for an empty catalog.
pub fn no_gpus() -> (r: String)
    ensures
        r@ == "no GPUs in the catalog yet — availability refreshes every ~15 minutes"@,
{
    "no GPUs in the catalog yet — availability refreshes every ~15 minutes".to_string()
}

/// The lines below the table.
pub fn footer() -> (r: Vec<String>)
    ensures
        views(r@) == seq![
            "\ndeploy: aoraki launch --image IMG --port PORT --gpu \"MODEL\"   (or bare --gpu for cheapest available)"@,
            "billing runs per-hour for the whole time a GPU deployment exists — un-deploy when done"@,
        ],
{
    let mut out: Vec<String> = Vec::new();
    out.push(
        "\ndeploy: aoraki launch --image IMG --port PORT --gpu \"MODEL\"   (or bare --gpu for cheapest available)".to_string(),
    );
    out.push(
        "billing runs per-hour for the whole time a GPU deployment exists — un-deploy when done".to_string(),
    );
    proof {
        assert(views(out@) =~= seq![
            "\ndeploy: aoraki launch --image IMG --port PORT --gpu \"MODEL\"   (or bare --gpu for cheapest available)"@,
            "billing runs per-hour for the whole time a GPU deployment exists — un-deploy when done"@,
        ]);
    }
    out
}

/// What is shown of a workload's logs.
pub fn logs(answer: &Json) -> (r: String)
    ensures
        r@ == ({
            let text = answer.tree().get("data"@).get("logs"@).text_or(""@);
            if text.len() > 0 {
                text
            } else {
                "no logs available yet — the workload may still be starting"@
            }
        }),
{
    let text = match answer.text_at2("data", "logs") {
        Some(text) => text,
        None => "",
    };
    if text.unicode_len() > 0 {
        text.to_string()
    } else {
        "no logs available yet — the workload may still be starting".to_string()
    }
}

/// The line after a workload was removed.
pub fn rm(id: &str) -> (r: String)
    ensures
        r@ == "✓ un-deployed "@ + id@ + " — billing stopped"@,
{
    "✓ un-deployed ".to_string().concat(id).concat(" — billing stopped")
}

/// A GPU model is dimmed exactly where none is free or it is not on offer, and
/// shown with what is told of it: its name, its memory, its rate and how many
/// are free.
pub proof fn a_model_is_shown(gpu: Tree, rate: Option<Seq<char>>)
    ensures
        ({
            let name = match gpu.get("name"@) {
                Tree::Text(text) => text,
                _ => "?"@,
            };
            let memory = match gpu.get("vram_gb"@) {
                Tree::Number(_, Some(n)) => signed_decimal(n as int) + "G"@,
                _ => "—"@,
            };
            let price = match rate {
                Some(text) => text,
                None => "—"@,
            };
            let free: int = match gpu.get("available_count"@) {
                Tree::Number(_, Some(n)) => n as int,
                _ => 0,
            };
            let line = padded_right(name, 28) + " "@ + padded_left(memory, 6) + " "@ + padded_left(
                price,
                9,
            ) + " "@ + padded_left(signed_decimal(free), 7);
            &&& free > 0 && gpu.get("is_available"@) == Tree::Bool(true) ==> gpu_row(gpu, rate)
                == line
            &&& free <= 0 || gpu.get("is_available"@) != Tree::Bool(true) ==> gpu_row(gpu, rate)
                == DIM@ + line + RESET@
        }),
{
}

} // verus!
