//! The repository analysis returned by the model, and the prompt that asks
//! for the final README.
use vstd::prelude::*;
use crate::assemble::str_views;
use crate::lines::{join, join_exec, views};
use crate::text::{append_chars, append_str, chars_of, string_of};

verus! {

#[derive(Debug)]
pub struct ReadmeAnalysis {
    pub questions: Vec<Question>,
    pub extracted: ExtractedData,
}

/// A question for the user with the options to choose from.
#[derive(Debug)]
pub struct Question {
    pub question: String,
    pub options: Vec<String>,
}

/// Facts the model read from the repository.
#[derive(Debug)]
pub struct ExtractedData {
    pub project_name: Option<String>,
    pub project_type: Option<String>,
    pub tech_stack: Vec<String>,
    pub main_functionality: Vec<String>,
    pub inferred_features: Option<Vec<String>>,
}

/// Each item on a line of its own, after `- `.
pub open spec fn bullets(items: Seq<Seq<char>>) -> Seq<char> {
    join(items.map_values(|s: Seq<char>| "- "@ + s), "\n"@)
}

pub open spec fn name_or(o: Option<String>, d: Seq<char>) -> Seq<char> {
    match o {
        Some(s) => s@,
        None => d,
    }
}

pub open spec fn features_text(f: Option<Vec<String>>) -> Seq<char> {
    match f {
        Some(v) => bullets(str_views(v@)),
        None => "None"@,
    }
}

pub open spec fn generation_prompt(
    e: ExtractedData,
    git_context: Seq<char>,
    answers: Seq<Seq<char>>,
) -> Seq<char> {
    "# EXTRACTED PROJECT DATA (use as-is, do not repeat):\n\n**Project**: "@ + name_or(
        e.project_name,
        "Unknown"@,
    ) + "\n**Type**: "@ + name_or(e.project_type, "other"@) + "\n**Tech Stack**: "@ + join(
        str_views(e.tech_stack@),
        ", "@,
    ) + "\n**Core Functionality**:\n"@ + bullets(str_views(e.main_functionality@))
        + "\n\n**Inferred Features**:\n"@ + features_text(e.inferred_features)
        + "\n\n---\n\n# GIT METADATA (for natural reference):\n"@ + git_context
        + "\n\n---\n\n# USER RESPONSES:\n"@ + join(answers, "\n\n"@)
        + "\n\n---\n\nGenerate a complete, production-ready README.md using the above context. Use extracted data verbatim, incorporate git metadata naturally, and fill gaps based on user responses."@
}

fn strings_to_chars(v: &Vec<String>) -> (r: Vec<Vec<char>>)
    ensures
        views(r@) == str_views(v@),
{
    crate::assemble::to_chars_all(v)
}

fn bullets_exec(v: &Vec<String>) -> (r: Vec<char>)
    ensures
        r@ == bullets(str_views(v@)),
{
    let mut items: Vec<Vec<char>> = Vec::new();
    let mut i: usize = 0;
    while i < v.len()
        invariant
            i <= v.len(),
            views(items@) == str_views(v@).subrange(0, i as int).map_values(
                |s: Seq<char>| "- "@ + s,
            ),
        decreases v.len() - i,
    {
        let mut item = chars_of("- ");
        append_chars(&mut item, &chars_of(v[i].as_str()));
        proof {
            assert(views(items@.push(item)) =~= views(items@).push(item@));
        }
        items.push(item);
        i += 1;
        assert(views(items@) =~= str_views(v@).subrange(0, i as int).map_values(
            |s: Seq<char>| "- "@ + s,
        ));
    }
    assert(str_views(v@).subrange(0, v.len() as int) =~= str_views(v@));
    join_exec(&items, &chars_of("\n"))
}

fn name_or_exec(o: &Option<String>, d: &str) -> (r: Vec<char>)
    ensures
        r@ == name_or(*o, d@),
{
    match o {
        Some(s) => chars_of(s.as_str()),
        None => chars_of(d),
    }
}

/// The request for the README: the extracted facts, the repository metadata
/// and the user's answers, in a fixed template.
pub fn build_generation_prompt(
    analysis: &ReadmeAnalysis,
    git_context: &str,
    answers: &Vec<String>,
) -> (r: String)
    ensures
        r@ == generation_prompt(analysis.extracted, git_context@, str_views(answers@)),
{
    let e = &analysis.extracted;
    let mut out = chars_of("# EXTRACTED PROJECT DATA (use as-is, do not repeat):\n\n**Project**: ");
    append_chars(&mut out, &name_or_exec(&e.project_name, "Unknown"));
    append_str(&mut out, "\n**Type**: ");
    append_chars(&mut out, &name_or_exec(&e.project_type, "other"));
    append_str(&mut out, "\n**Tech Stack**: ");
    append_chars(&mut out, &join_exec(&strings_to_chars(&e.tech_stack), &chars_of(", ")));
    append_str(&mut out, "\n**Core Functionality**:\n");
    append_chars(&mut out, &bullets_exec(&e.main_functionality));
    append_str(&mut out, "\n\n**Inferred Features**:\n");
    match &e.inferred_features {
        Some(f) => append_chars(&mut out, &bullets_exec(f)),
        None => append_str(&mut out, "None"),
    }
    append_str(&mut out, "\n\n---\n\n# GIT METADATA (for natural reference):\n");
    append_chars(&mut out, &chars_of(git_context));
    append_str(&mut out, "\n\n---\n\n# USER RESPONSES:\n");
    append_chars(&mut out, &join_exec(&strings_to_chars(answers), &chars_of("\n\n")));
    append_str(
        &mut out,
        "\n\n---\n\nGenerate a complete, production-ready README.md using the above context. Use extracted data verbatim, incorporate git metadata naturally, and fill gaps based on user responses.",
    );
    string_of(&out)
}

pub open spec fn digit(d: nat) -> char {
    if d == 0 {
        '0'
    } else if d == 1 {
        '1'
    } else if d == 2 {
        '2'
    } else if d == 3 {
        '3'
    } else if d == 4 {
        '4'
    } else if d == 5 {
        '5'
    } else if d == 6 {
        '6'
    } else if d == 7 {
        '7'
    } else if d == 8 {
        '8'
    } else {
        '9'
    }
}

/// Decimal notation of `n`.
pub open spec fn decimal(n: nat) -> Seq<char>
    decreases n,
{
    if n < 10 {
        seq![digit(n)]
    } else {
        decimal(n / 10) + seq![digit(n % 10)]
    }
}

fn digit_exec(d: usize) -> (r: char)
    requires
        d < 10,
    ensures
        r == digit(d as nat),
{
    if d == 0 {
        '0'
    } else if d == 1 {
        '1'
    } else if d == 2 {
        '2'
    } else if d == 3 {
        '3'
    } else if d == 4 {
        '4'
    } else if d == 5 {
        '5'
    } else if d == 6 {
        '6'
    } else if d == 7 {
        '7'
    } else if d == 8 {
        '8'
    } else {
        '9'
    }
}

fn decimal_exec(n: usize) -> (r: Vec<char>)
    ensures
        r@ == decimal(n as nat),
    decreases n,
{
    if n < 10 {
        let mut v: Vec<char> = Vec::new();
        v.push(digit_exec(n));
        assert(v@ =~= seq![digit(n as nat)]);
        v
    } else {
        let mut v = decimal_exec(n / 10);
        v.push(digit_exec(n % 10));
        v
    }
}

pub open spec fn answer_text(number: nat, question: Seq<char>, choice: Seq<char>) -> Seq<char> {
    "Q"@ + decimal(number) + ": "@ + question + "\nA: "@ + choice
}

/// The record of the user's choice for question `index` (counted from 0,
/// shown from 1).
pub fn format_answer(index: usize, question: &Question, choice: usize) -> (r: String)
    requires
        index < usize::MAX,
        choice < question.options.len(),
    ensures
        r@ == answer_text(
            (index + 1) as nat,
            question.question@,
            question.options@[choice as int]@,
        ),
{
    let mut out = chars_of("Q");
    append_chars(&mut out, &decimal_exec(index + 1));
    append_str(&mut out, ": ");
    append_chars(&mut out, &chars_of(question.question.as_str()));
    append_str(&mut out, "\nA: ");
    append_chars(&mut out, &chars_of(question.options[choice].as_str()));
    string_of(&out)
}

} // verus!
