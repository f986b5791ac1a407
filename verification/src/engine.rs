//! The engine's command line: how one encoding pass is spelled out.

use vstd::prelude::*;
use crate::plan::{EncodePlan, PlanView};
use crate::text::{decimal, joined, push_decimal, texts};

verus! {

/// The two programs of the engine.
#[derive(Debug, Clone, Copy, PartialEq, Eq, Structural)]
pub enum Tool {
    /// The program that decodes, filters and encodes.
    Encoder,
    /// The program that reports the properties of a file.
    Prober,
}

/// The flags that every encoder invocation starts with: overwrite the
/// output, print no banner, log errors only.
pub open spec fn preamble() -> Seq<Seq<char>> {
    seq!["-y"@, "-hide_banner"@, "-loglevel"@, "error"@]
}

/// The filter chain of an invocation: absent where there is no filter.
pub open spec fn filter_part(filters: Seq<Seq<char>>) -> Seq<Seq<char>> {
    if filters.len() > 0 {
        seq!["-af"@, joined(filters, ","@)]
    } else {
        Seq::empty()
    }
}

/// Whether an invocation names a bit rate: the plan must take one, and a
/// rate above zero must be given.
pub open spec fn rate_applies(plan: PlanView, kbps: Option<i32>) -> bool {
    plan.takes_bitrate && kbps is Some && kbps->0 > 0
}

/// The bit rate of an invocation, in kilobits per second.
pub open spec fn rate_part(plan: PlanView, kbps: Option<i32>) -> Seq<Seq<char>> {
    if rate_applies(plan, kbps) {
        seq!["-b:a"@, decimal(kbps->0 as int) + "k"@]
    } else {
        Seq::empty()
    }
}

/// The arguments of one encoding pass: the common flags, the input, the
/// filter chain if any, the bit rate if it applies, the plan's codec flags,
/// the muxer and the output.
#[verifier::opaque]
pub open spec fn encode_command(
    input: Seq<char>,
    plan: PlanView,
    filters: Seq<Seq<char>>,
    kbps: Option<i32>,
    output: Seq<char>,
) -> Seq<Seq<char>> {
    preamble() + seq!["-i"@, input] + filter_part(filters) + rate_part(plan, kbps)
        + plan.codec_args + seq!["-f"@, plan.muxer, output]
}

/// The views of a slice of string slices.
pub open spec fn words(items: Seq<&str>) -> Seq<Seq<char>> {
    Seq::new(items.len(), |i: int| items[i]@)
}

/// Appends each item of a list to an argument list.
pub fn push(args: &mut Vec<String>, items: &[&str])
    ensures
        texts(final(args)@) == texts(old(args)@) + words(items@),
{
    let mut i: usize = 0;
    while i < items.len()
        invariant
            i <= items.len(),
            texts(args@) == texts(old(args)@) + words(items@.subrange(0, i as int)),
        decreases items.len() - i,
    {
        let ghost before = args@;
        let word = items[i].to_owned();
        args.push(word);
        assert(texts(args@) =~= texts(before).push(word@));
        i = i + 1;
    }
}

/// Appends an option and its value to an argument list.
pub fn push_kv(args: &mut Vec<String>, k: &str, v: &str)
    ensures
        texts(final(args)@) == texts(old(args)@) + seq![k@, v@],
{
    args.push(k.to_owned());
    args.push(v.to_owned());
}

/// Appends one owned text to an argument list.
pub fn push_text(args: &mut Vec<String>, text: String)
    ensures
        texts(final(args)@) == texts(old(args)@).push(text@),
{
    args.push(text);
}

/// Appends copies of the texts of a list to an argument list.
pub fn push_all(args: &mut Vec<String>, more: &Vec<String>)
    ensures
        texts(final(args)@) == texts(old(args)@) + texts(more@),
{
    let mut i: usize = 0;
    while i < more.len()
        invariant
            i <= more.len(),
            texts(args@) == texts(old(args)@) + texts(more@.subrange(0, i as int)),
        decreases more.len() - i,
    {
        let ghost before = args@;
        let word = more[i].clone();
        args.push(word);
        assert(texts(args@) =~= texts(before).push(word@));
        i = i + 1;
    }
}

/// The texts of a list joined into one string, with a separator between
/// neighbours.
pub fn join(parts: &Vec<String>, sep: &str) -> (r: String)
    ensures
        r@ == joined(texts(parts@), sep@),
{
    let mut r = String::new();
    let mut i: usize = 0;
    while i < parts.len()
        invariant
            i <= parts.len(),
            r@ == joined(texts(parts@).subrange(0, i as int), sep@),
        decreases parts.len() - i,
    {
        let ghost head = texts(parts@).subrange(0, i as int);
        let ghost next = texts(parts@).subrange(0, i + 1);
        assert(next.drop_last() =~= head);
        if i > 0 {
            r.append(sep);
        }
        r.append(parts[i].as_str());
        i = i + 1;
    }
    assert(texts(parts@).subrange(0, i as int) =~= texts(parts@));
    r
}

/// Builds the arguments of one encoding pass.
pub fn encode_args(
    input: &str,
    plan: &EncodePlan,
    filters: &Vec<String>,
    kbps: Option<i32>,
    output: &str,
) -> (args: Vec<String>)
    ensures
        texts(args@) == encode_command(input@, plan@, texts(filters@), kbps, output@),
{
    reveal(encode_command);
    let mut args: Vec<String> = Vec::new();
    push(&mut args, &["-y", "-hide_banner", "-loglevel", "error"]);
    push_kv(&mut args, "-i", input);
    if filters.len() > 0 {
        let chain = join(filters, ",");
        push_kv(&mut args, "-af", chain.as_str());
    }
    match kbps {
        Some(k) => {
            if plan.takes_bitrate && k > 0 {
                let mut rate = String::new();
                push_decimal(&mut rate, k as i64);
                rate.append("k");
                push_kv(&mut args, "-b:a", rate.as_str());
            }
        },
        None => {},
    }
    assert(texts(args@) == preamble() + seq!["-i"@, input@] + filter_part(texts(filters@))
        + rate_part(plan@, kbps));
    push_all(&mut args, &plan.codec_args);
    push_kv(&mut args, "-f", plan.muxer.as_str());
    push_text(&mut args, output.to_owned());
    args
}

} // verus!
