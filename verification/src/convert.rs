//! Conversion: one recording encoded in another format.

use vstd::prelude::*;
use crate::error::{AudioError, ErrorView};
use crate::job::{fresh, Job, Rate, StepView};
use crate::plan::{plan_for, plan_of};
use crate::recipe::{single_pass, single_pass_steps};
use crate::text::{chars_of, lowered, string_of, texts};

verus! {

/// The number of dots at the start of a text.
pub open spec fn leading_dots(s: Seq<char>) -> nat
    decreases s.len(),
{
    if s.len() > 0 && s[0] == '.' {
        1 + leading_dots(s.drop_first())
    } else {
        0
    }
}

/// An extension as the scratch workspace takes it: without dots at its
/// start.
pub open spec fn bare_extension(ext: Seq<char>) -> Seq<char> {
    ext.subrange(leading_dots(ext) as int, ext.len() as int)
}

/// The hint under which an input is staged: its extension, bare, where one
/// is known.
pub open spec fn input_hint(ext: Option<Seq<char>>) -> Option<Seq<char>> {
    match ext {
        Some(e) => Some(bare_extension(e)),
        None => None,
    }
}

/// The steps of a conversion, or the refusal of a format without a plan.
/// The input is staged under its own extension, and the rate asked for is
/// handed to the encoder, which uses it where the plan takes one.
pub open spec fn convert_steps(
    blob: usize,
    output_format: Seq<char>,
    bitrate: i32,
    input_ext: Option<Seq<char>>,
) -> Result<Seq<StepView>, ErrorView> {
    match plan_of(output_format) {
        Some(plan) => Ok(
            single_pass(
                blob,
                input_hint(input_ext),
                plan,
                Seq::empty(),
                Rate::Given(Some(bitrate)),
            ),
        ),
        None => Err(ErrorView::UnsupportedFormat(lowered(output_format))),
    }
}

proof fn lemma_leading_dots_is(s: Seq<char>, n: int)
    requires
        0 <= n <= s.len(),
        forall|i: int| 0 <= i < n ==> s[i] == '.',
        n < s.len() ==> s[n] != '.',
    ensures
        leading_dots(s) == n,
    decreases s.len(),
{
    if s.len() > 0 && s[0] == '.' {
        let t = s.drop_first();
        lemma_leading_dots_is(t, n - 1);
    }
}

/// An extension without dots at its start.
pub fn bare_ext(ext: &str) -> (r: String)
    ensures
        r@ == bare_extension(ext@),
{
    let v = chars_of(ext);
    let mut i: usize = 0;
    while i < v.len() && v[i] == '.'
        invariant
            i <= v.len(),
            forall|j: int| 0 <= j < i ==> v@[j] == '.',
        decreases v.len() - i,
    {
        i = i + 1;
    }
    proof {
        lemma_leading_dots_is(v@, i as int);
    }
    string_of(&v, i, v.len())
}

/// Plans the conversion of input number `blob` of a request.
pub fn convert_file(blob: usize, output_format: &str, bitrate: i32, input_ext: Option<&str>) -> (r:
    Result<Job, AudioError>)
    ensures
        match convert_steps(
            blob,
            output_format@,
            bitrate,
            match input_ext {
                Some(e) => Some(e@),
                None => None,
            },
        ) {
            Ok(steps) => r is Ok && r.unwrap()@ == fresh(steps),
            Err(e) => r is Err && r.unwrap_err()@ == e,
        },
{
    let plan = match plan_for(output_format) {
        Ok(p) => p,
        Err(e) => {
            return Err(e);
        },
    };
    let hint = match input_ext {
        Some(e) => Some(bare_ext(e)),
        None => None,
    };
    let filters: Vec<String> = Vec::new();
    assert(texts(filters@) =~= Seq::empty());
    Ok(Job::new(single_pass_steps(blob, hint, plan, filters, Rate::Given(Some(bitrate)))))
}

} // verus!
