//! The prompt composer: the texts sent to the model for a chat turn and for
//! a theme analysis.
use vstd::prelude::*;
use crate::text::{contains_seq, join, matches_at, string_views};
use crate::types::opt_view;

verus! {

broadcast use vstd::string::group_string_axioms;

/// The application's name, which every system prompt carries.
pub const APP_NAME: &'static str = "MyFace SnapJournal";

pub const SYSTEM_HEAD: &'static str = "You are a helpful AI introspection companion for ";

pub const SYSTEM_INTRO: &'static str =
    ". You help users reflect on their journal entries and social media posts. ";

pub const CONTEXT_LEAD: &'static str = "Use the following context about the user's entries:\n\n";

pub const CONTEXT_TAIL: &'static str = "\n\n ";

pub const SYSTEM_CLOSE: &'static str =
    "Be empathetic, insightful, and encouraging. Help them discover patterns and insights in their writing.";

/// Separator placed between entry bodies in an analysis prompt.
pub const ENTRY_SEPARATOR: &'static str = "\n\n---\n\n";

pub const ANALYSIS_HEAD: &'static str =
    "Analyze the following journal entries and identify patterns, themes, and insights. Look for recurring topics, emotions, daily rhythms, and personal growth patterns.\n\nJournal Entries:\n";

pub const ANALYSIS_TAIL: &'static str =
    "\n\nProvide your analysis in this format:\nPATTERNS:\n- [pattern name]: [description]\nINSIGHTS:\n- [insight]\nMOODS:\n- [mood]: [percentage]";

/// The system message of a chat turn, with the context paragraph when there is one.
pub open spec fn system_prompt_spec(context: Option<Seq<char>>) -> Seq<char> {
    let head = SYSTEM_HEAD@ + APP_NAME@ + SYSTEM_INTRO@;
    match context {
        Some(c) => head + CONTEXT_LEAD@ + c + CONTEXT_TAIL@ + SYSTEM_CLOSE@,
        None => head + SYSTEM_CLOSE@,
    }
}

/// The single prompt handed to a model binary.
pub open spec fn process_prompt_spec(message: Seq<char>, context: Option<Seq<char>>) -> Seq<char> {
    match context {
        Some(c) => "Context: "@ + c + "\n\nUser: "@ + message + "\n\nAssistant:"@,
        None => "User: "@ + message + "\n\nAssistant:"@,
    }
}

/// The message that asks for a theme analysis of `entries`.
pub open spec fn analysis_prompt_spec(entries: Seq<Seq<char>>) -> Seq<char> {
    ANALYSIS_HEAD@ + join(entries, ENTRY_SEPARATOR@) + ANALYSIS_TAIL@
}

/// The system message for a chat turn with the given context.
pub fn system_prompt(context: &Option<String>) -> (r: String)
    ensures
        r@ == system_prompt_spec(opt_view(*context)),
        contains_seq(r@, APP_NAME@),
{
    let mut r = String::from_str(SYSTEM_HEAD);
    r.append(APP_NAME);
    r.append(SYSTEM_INTRO);
    match context {
        Some(c) => {
            r.append(CONTEXT_LEAD);
            r.append(c.as_str());
            r.append(CONTEXT_TAIL);
        },
        None => {},
    }
    r.append(SYSTEM_CLOSE);
    proof {
        let at = SYSTEM_HEAD@.len() as int;
        assert(r@.subrange(at, at + APP_NAME@.len()) =~= APP_NAME@);
        assert(matches_at(r@, APP_NAME@, at));
    }
    r
}

/// The prompt for a model binary: the context, if any, then the user's turn.
pub fn process_prompt(message: &String, context: &Option<String>) -> (r: String)
    ensures
        r@ == process_prompt_spec(message@, opt_view(*context)),
{
    let mut r = match context {
        Some(c) => {
            let mut p = String::from_str("Context: ");
            p.append(c.as_str());
            p.append("\n\nUser: ");
            p
        },
        None => String::from_str("User: "),
    };
    r.append(message.as_str());
    r.append("\n\nAssistant:");
    r
}

/// `entries` joined by `sep`.
pub fn join_strings(entries: &Vec<String>, sep: &str) -> (r: String)
    ensures
        r@ == join(string_views(entries@), sep@),
{
    let mut r = String::new();
    let mut i: usize = 0;
    while i < entries.len()
        invariant
            i <= entries.len(),
            r@ == join(string_views(entries@).take(i as int), sep@),
        decreases entries.len() - i,
    {
        let ghost before = string_views(entries@).take(i as int);
        if i > 0 {
            r.append(sep);
        }
        r.append(entries[i].as_str());
        proof {
            let after = string_views(entries@).take(i + 1);
            assert(after.drop_last() =~= before);
            if i == 0 {
                assert(r@ =~= after[0]);
            }
        }
        i = i + 1;
    }
    proof {
        assert(string_views(entries@).take(i as int) =~= string_views(entries@));
    }
    r
}

/// The message that asks the model for a theme analysis of `entries`.
pub fn analysis_prompt(entries: &Vec<String>) -> (r: String)
    ensures
        r@ == analysis_prompt_spec(string_views(entries@)),
{
    let mut r = String::from_str(ANALYSIS_HEAD);
    let combined = join_strings(entries, ENTRY_SEPARATOR);
    r.append(combined.as_str());
    r.append(ANALYSIS_TAIL);
    r
}

} // verus!
