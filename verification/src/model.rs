//! What the completion model is asked, built from a snapshot, and what is
//! kept of its answer.

use vstd::prelude::*;
use vstd::string::StringExecFns;
use crate::cache::{TextCache, is_sorted_listing};
use crate::snapshot::{CodeContext, ContextSnapshot, SnapshotView, SnippetView, snippet_views};
use crate::text::{
    chars_of, decimal_text, has_prefix, join_lines, joined_lines, matches_at, push_decimal,
    split_lines, string_of, string_views, text_lines, trim, trim_bounds, trimmed,
};

verus! {

/// The lines `start_line..end_line` of `content`, lines counted from zero,
/// joined by line feeds. The range is cut down to the lines that exist; it
/// selects nothing at all when its first line does not.
pub open spec fn snippet_text(content: Seq<char>, start_line: nat, end_line: nat) -> Option<
    Seq<char>,
> {
    let lines = text_lines(content);
    if start_line < lines.len() {
        let within = if end_line < lines.len() {
            end_line
        } else {
            lines.len()
        };
        let stop = if within < start_line {
            start_line
        } else {
            within
        };
        Some(joined_lines(lines.subrange(start_line as int, stop as int)))
    } else {
        None
    }
}

/// The code that a snippet selects from the text of its file: the lines
/// `start_line..end_line`, or `None` when the file has no line `start_line`.
pub fn snippet_code(content: &str, start_line: u32, end_line: u32) -> (r: Option<String>)
    ensures
        match r {
            Some(code) => snippet_text(content@, start_line as nat, end_line as nat) == Some(code@),
            None => snippet_text(content@, start_line as nat, end_line as nat) is None,
        },
{
    let lines = split_lines(content);
    let start = start_line as usize;
    if start >= lines.len() {
        return None;
    }
    let within: usize = if (end_line as usize) < lines.len() {
        end_line as usize
    } else {
        lines.len()
    };
    let stop: usize = if within < start {
        start
    } else {
        within
    };
    Some(join_lines(&lines, start, stop))
}

/// The mark that opens and closes a block of code in an answer.
pub const FENCE: &'static str = "```";

/// Whether `i` is the position of the first line feed in `t`.
pub open spec fn is_first_line_feed(t: Seq<char>, i: int) -> bool {
    &&& 0 <= i < t.len()
    &&& t[i] == '\n'
    &&& forall|j: int| 0 <= j < i ==> t[j] != '\n'
}

/// Whether `mark` stands in `t` at position `p`.
pub open spec fn stands_at(t: Seq<char>, p: int, mark: Seq<char>) -> bool {
    0 <= p && p + mark.len() <= t.len() && t.subrange(p, p + mark.len()) == mark
}

/// Whether `p` is the last position at which `mark` stands in `t`.
pub open spec fn is_last_mark(t: Seq<char>, p: int, mark: Seq<char>) -> bool {
    &&& stands_at(t, p, mark)
    &&& forall|q: int| p < q ==> !stands_at(t, q, mark)
}

/// What stands in a fenced block: `t` opens with a fence, and the block is
/// what lies between the end of the first line and the last fence after it,
/// without the white space around it.
pub open spec fn fenced_body(t: Seq<char>) -> Option<Seq<char>> {
    if has_prefix(t, FENCE@) && exists|i: int| is_first_line_feed(t, i) {
        let i = choose|i: int| is_first_line_feed(t, i);
        let after = t.skip(i + 1);
        if exists|p: int| is_last_mark(after, p, FENCE@) {
            let p = choose|p: int| is_last_mark(after, p, FENCE@);
            Some(trimmed(after.take(p)))
        } else {
            None
        }
    } else {
        None
    }
}

/// The code in the model's answer: the answer without the white space
/// around it, and of an answer that is a fenced block only what stands in
/// the block.
pub open spec fn extracted_code(response: Seq<char>) -> Seq<char> {
    let t = trimmed(response);
    match fenced_body(t) {
        Some(body) => body,
        None => t,
    }
}

/// The code in the model's answer.
#[verifier::loop_isolation(false)]
pub fn extract_code_from_response(response: &str) -> (r: String)
    ensures
        r@ == extracted_code(response@),
{
    let whole = trim(response);
    let t = chars_of(whole.as_str());
    let fence = chars_of(FENCE);
    proof {
        reveal_strlit("```");
    }
    if !matches_at(&t, 0, &fence) {
        return whole;
    }
    let mut i: usize = 0;
    while i < t.len() && t[i] != '\n'
        invariant
            i <= t.len(),
            forall|j: int| 0 <= j < i ==> t@[j] != '\n',
        decreases t.len() - i,
    {
        i = i + 1;
    }
    if i == t.len() {
        assert(!exists|k: int| is_first_line_feed(t@, k));
        return whole;
    }
    proof {
        assert(is_first_line_feed(t@, i as int));
        let c = choose|k: int| is_first_line_feed(t@, k);
        assert(c == i);
    }
    let from: usize = i + 1;
    let ghost after = t@.skip(from as int);
    if t.len() - from < 3 {
        assert(!exists|p: int| is_last_mark(after, p, FENCE@));
        return whole;
    }
    let mut q: usize = t.len() - 3;
    loop
        invariant
            from <= q <= t.len() - 3,
            fence@ == FENCE@,
            fence@.len() == 3,
            after == t@.skip(from as int),
            forall|k: int| q - from < k ==> !stands_at(after, k, FENCE@),
        decreases q - from,
    {
        let found = matches_at(&t, q, &fence);
        proof {
            assert(after.subrange(q - from, q - from + 3) =~= t@.subrange(q as int, q + 3));
        }
        if found {
            proof {
                assert(is_last_mark(after, q - from, FENCE@));
                let c = choose|p: int| is_last_mark(after, p, FENCE@);
                assert(c == q - from);
                assert(after.take(q - from) =~= t@.subrange(from as int, q as int));
            }
            let (a, b) = trim_bounds(&t, from, q);
            return string_of(&t, a, b);
        }
        if q == from {
            assert(!exists|p: int| is_last_mark(after, p, FENCE@));
            return whole;
        }
        q = q - 1;
    }
}

/// One message of the conversation sent to the model.
#[derive(Debug)]
pub struct ChatMessage {
    pub role: String,
    pub content: String,
}

/// The role of the message that instructs the model.
pub const SYSTEM_ROLE: &'static str = "system";

/// The role of the message that carries the request.
pub const USER_ROLE: &'static str = "user";

/// The instructions that open every conversation.
pub const SYSTEM_PROMPT: &'static str = "You are an AI code completion assistant.
        Generate code that naturally continues from the <CURSOR> position.
        The developer trusts you to understand what they are trying to make, and your continuation needs to be very helpful to not get in the way of the developer.
        IMPORTANT NOTES:
            1. Preserve the indentation level from the context. Match the indentation of surrounding code.
            2. Do not repeat existing code blindly, try to understand what the developer whants to write and continue the thought naturally
                a. Your response will be inserted at the <CURSOR> location so DO NOT repeat the text that comes after it, just continue naturally. e.g. if it goes something like this `...def fibona<CURSOR>...` your response needs to be `cci(int: n)...`
            3. Keep it short and generate code block-by-block. Avoid generating several functions in one response, close that logical block and stop.
        Return ONLY the completion code without explanations, markdown formatting (```python ```, or ```rust ```, or ```typescript ``` or ANYTHING like that), or code fences.
        You will be given some context - markdown files that tell you about the developer intent, what are they making and what they want to achieve, or general information about the code base, it can be anything, most importantly the data is in natural language, may contain code snippets etc.
        You will also be given code files that will give you more data about the code base";

/// Heading of the notes in the request.
pub const NOTES_HEADING: &'static str = "Here is some context you might need:\n\n";

/// What stands before a note's file name.
pub const NOTE_TITLE: &'static str = "## ";

/// What stands between a note's file name and its text.
pub const NOTE_GAP: &'static str = "\n\n";

/// What closes a note.
pub const NOTE_END: &'static str = "\n\n---\n\n";

/// Heading of the snippets in the request.
pub const SNIPPETS_HEADING: &'static str = "Here are some code snippets that you might need:\n\n";

/// The pieces of a snippet's entry, in the order in which they are written:
/// before the number, the URI, the first line, the line after the last, the
/// language, and after the language.
pub const SNIPPET_NUMBER: &'static str = "Snippet ";

pub const SNIPPET_URI: &'static str = "\n\n:\n\n  URI: ";

pub const SNIPPET_LINES: &'static str = "\n\n  Lines: ";

pub const SNIPPET_TO: &'static str = "-";

pub const SNIPPET_LANGUAGE: &'static str = "\n\n  Language: ";

pub const SNIPPET_GAP: &'static str = "\n\n";

/// What stands before and after a snippet's description.
pub const DESCRIPTION_OPEN: &'static str = "  Description: ";

pub const DESCRIPTION_CLOSE: &'static str = "\n";

/// What stands before and after a snippet's code.
pub const CODE_OPEN: &'static str = "  Code:\n```\n";

pub const CODE_CLOSE: &'static str = "\n```\n\n";

/// What stands for the code of a snippet whose file has no such lines.
pub const CODE_INVALID: &'static str = "  Code: [Invalid line range]\n\n";

/// What stands for the code of a snippet whose file is not in the cache.
pub const CODE_ABSENT: &'static str = "  Code: [File not in cache]\n\n";

/// What closes the snippets.
pub const SNIPPETS_END: &'static str = "---\n\n";

/// The request proper: what stands before the language, before the URI of
/// the file that is edited, before the text in front of the cursor, and at
/// the cursor.
pub const TASK_OPEN: &'static str = "Complete the following code.\n\n";

pub const TASK_RULES: &'static str = "\n\n\n The cursor is at <CURSOR>. Generate the raw, full code that should be inserted at <CURSOR>. Do not include any explanations or markdown formatting. IMPORTANT: Ensure proper indentation - match the indentation level of the surrounding code context.\n\n";

pub const TASK_FILE: &'static str = "File: ";

pub const TASK_GAP: &'static str = "\n\n";

pub const CURSOR: &'static str = "<CURSOR>";

/// The notes `names` as the request shows them, each with its file name as
/// title.
pub open spec fn notes_listing(names: Seq<Seq<char>>, cache: Map<Seq<char>, Seq<char>>) -> Seq<char>
    decreases names.len(),
{
    if names.len() == 0 {
        Seq::empty()
    } else {
        notes_listing(names.drop_last(), cache) + NOTE_TITLE@ + names.last() + NOTE_GAP@
            + cache[names.last()] + NOTE_END@
    }
}

/// The part of the request that shows the notes; nothing when there are
/// none.
pub open spec fn notes_part(names: Seq<Seq<char>>, cache: Map<Seq<char>, Seq<char>>) -> Seq<char> {
    if names.len() == 0 {
        Seq::empty()
    } else {
        NOTES_HEADING@ + notes_listing(names, cache)
    }
}

/// The code of a snippet as the request shows it.
pub open spec fn snippet_body(snippet: SnippetView, files: Map<Seq<char>, Seq<char>>) -> Seq<char> {
    if files.contains_key(snippet.uri) {
        match snippet_text(
            files[snippet.uri],
            snippet.start_line as nat,
            snippet.end_line as nat,
        ) {
            Some(code) => CODE_OPEN@ + code + CODE_CLOSE@,
            None => CODE_INVALID@,
        }
    } else {
        CODE_ABSENT@
    }
}

/// The heading of the snippet with the number `number`: the number, the
/// URI, the range of lines and the language.
pub open spec fn snippet_heading(number: nat, snippet: SnippetView) -> Seq<char> {
    SNIPPET_NUMBER@ + decimal_text(number) + SNIPPET_URI@ + snippet.uri + SNIPPET_LINES@
        + decimal_text(snippet.start_line as nat) + SNIPPET_TO@ + decimal_text(
        snippet.end_line as nat,
    ) + SNIPPET_LANGUAGE@ + snippet.language_id + SNIPPET_GAP@
}

/// The description of a snippet as the request shows it; nothing when the
/// snippet has none.
pub open spec fn snippet_description(snippet: SnippetView) -> Seq<char> {
    match snippet.description {
        Some(d) => DESCRIPTION_OPEN@ + d + DESCRIPTION_CLOSE@,
        None => Seq::empty(),
    }
}

/// The snippet with the number `number` as the request shows it.
pub open spec fn snippet_entry(
    number: nat,
    snippet: SnippetView,
    files: Map<Seq<char>, Seq<char>>,
) -> Seq<char> {
    snippet_heading(number, snippet) + snippet_description(snippet) + snippet_body(snippet, files)
}

/// The snippets as the request shows them, numbered from one.
pub open spec fn snippets_listing(snippets: Seq<SnippetView>, files: Map<Seq<char>, Seq<char>>) -> Seq<
    char,
>
    decreases snippets.len(),
{
    if snippets.len() == 0 {
        Seq::empty()
    } else {
        snippets_listing(snippets.drop_last(), files) + snippet_entry(
            snippets.len(),
            snippets.last(),
            files,
        )
    }
}

/// The part of the request that shows the snippets; nothing when there are
/// none.
pub open spec fn snippets_part(snippets: Seq<SnippetView>, files: Map<Seq<char>, Seq<char>>) -> Seq<
    char,
> {
    if snippets.len() == 0 {
        Seq::empty()
    } else {
        SNIPPETS_HEADING@ + snippets_listing(snippets, files) + SNIPPETS_END@
    }
}

/// The request proper: the language, the file that is edited and its text,
/// with a mark where the cursor stands.
pub open spec fn task_part(
    prefix: Seq<char>,
    suffix: Seq<char>,
    language: Seq<char>,
    uri: Seq<char>,
) -> Seq<char> {
    TASK_OPEN@ + language + TASK_RULES@ + TASK_FILE@ + uri + TASK_GAP@ + prefix + CURSOR@ + suffix
}

/// The whole request, with the notes in the order `names`.
pub open spec fn user_prompt(
    s: SnapshotView,
    names: Seq<Seq<char>>,
    prefix: Seq<char>,
    suffix: Seq<char>,
    language: Seq<char>,
    uri: Seq<char>,
) -> Seq<char> {
    notes_part(names, s.markdown_cache) + snippets_part(s.snippets, s.file_cache) + task_part(
        prefix,
        suffix,
        language,
        uri,
    )
}

fn append_notes(out: &mut String, cache: &TextCache) -> (names: Ghost<Seq<Seq<char>>>)
    ensures
        is_sorted_listing(names@, cache@.dom()),
        final(out)@ == old(out)@ + notes_part(names@, cache@),
{
    let keys = cache.sorted_keys();
    let ghost names = string_views(keys@);
    if keys.len() == 0 {
        assert(out@ + notes_part(names, cache@) =~= out@);
        return Ghost(names);
    }
    out.append(NOTES_HEADING);
    let mut i: usize = 0;
    assert(names.take(0) =~= Seq::<Seq<char>>::empty());
    assert(out@ =~= old(out)@ + NOTES_HEADING@ + notes_listing(names.take(0), cache@));
    while i < keys.len()
        invariant
            i <= keys.len(),
            names == string_views(keys@),
            names.to_set() == cache@.dom(),
            out@ == old(out)@ + NOTES_HEADING@ + notes_listing(names.take(i as int), cache@),
        decreases keys.len() - i,
    {
        let ghost before = out@;
        let name = keys[i].as_str();
        proof {
            assert(names.take(i + 1).drop_last() =~= names.take(i as int));
            assert(names.take(i + 1).last() == name@);
            assert(names.contains(names[i as int]));
            assert(cache@.dom().contains(name@));
        }
        out.append(NOTE_TITLE);
        out.append(name);
        out.append(NOTE_GAP);
        match cache.get(name) {
            Some(text) => {
                out.append(text.as_str());
            },
            None => {},
        }
        out.append(NOTE_END);
        assert(out@ =~= old(out)@ + NOTES_HEADING@ + notes_listing(names.take(i + 1), cache@));
        i = i + 1;
    }
    assert(names.take(keys.len() as int) =~= names);
    assert(out@ =~= old(out)@ + notes_part(names, cache@));
    Ghost(names)
}

fn append_heading(out: &mut String, number: usize, snippet: &CodeContext)
    ensures
        final(out)@ == old(out)@ + snippet_heading(number as nat, snippet@),
{
    out.append(SNIPPET_NUMBER);
    push_decimal(out, number as u64);
    out.append(SNIPPET_URI);
    out.append(snippet.uri.as_str());
    out.append(SNIPPET_LINES);
    push_decimal(out, snippet.start_line as u64);
    out.append(SNIPPET_TO);
    push_decimal(out, snippet.end_line as u64);
    out.append(SNIPPET_LANGUAGE);
    out.append(snippet.language_id.as_str());
    out.append(SNIPPET_GAP);
    assert(out@ =~= old(out)@ + snippet_heading(number as nat, snippet@));
}

fn append_description(out: &mut String, snippet: &CodeContext)
    ensures
        final(out)@ == old(out)@ + snippet_description(snippet@),
{
    match &snippet.description {
        Some(d) => {
            out.append(DESCRIPTION_OPEN);
            out.append(d.as_str());
            out.append(DESCRIPTION_CLOSE);
        },
        None => {},
    }
    assert(out@ =~= old(out)@ + snippet_description(snippet@));
}

fn append_body(out: &mut String, snippet: &CodeContext, files: &TextCache)
    ensures
        final(out)@ == old(out)@ + snippet_body(snippet@, files@),
{
    match files.get(snippet.uri.as_str()) {
        Some(content) => match snippet_code(
            content.as_str(),
            snippet.start_line,
            snippet.end_line,
        ) {
            Some(code) => {
                out.append(CODE_OPEN);
                out.append(code.as_str());
                out.append(CODE_CLOSE);
            },
            None => {
                out.append(CODE_INVALID);
            },
        },
        None => {
            out.append(CODE_ABSENT);
        },
    }
    assert(out@ =~= old(out)@ + snippet_body(snippet@, files@));
}

fn append_snippet(out: &mut String, number: usize, snippet: &CodeContext, files: &TextCache)
    ensures
        final(out)@ == old(out)@ + snippet_entry(number as nat, snippet@, files@),
{
    append_heading(out, number, snippet);
    append_description(out, snippet);
    append_body(out, snippet, files);
    assert(out@ =~= old(out)@ + snippet_entry(number as nat, snippet@, files@));
}

fn append_snippets(out: &mut String, snippets: &Vec<CodeContext>, files: &TextCache)
    ensures
        final(out)@ == old(out)@ + snippets_part(snippet_views(snippets@), files@),
{
    let ghost list = snippet_views(snippets@);
    if snippets.len() == 0 {
        assert(out@ + snippets_part(list, files@) =~= out@);
        return ;
    }
    out.append(SNIPPETS_HEADING);
    let mut i: usize = 0;
    assert(list.take(0) =~= Seq::<SnippetView>::empty());
    assert(out@ =~= old(out)@ + SNIPPETS_HEADING@ + snippets_listing(list.take(0), files@));
    while i < snippets.len()
        invariant
            i <= snippets.len(),
            list == snippet_views(snippets@),
            out@ == old(out)@ + SNIPPETS_HEADING@ + snippets_listing(list.take(i as int), files@),
        decreases snippets.len() - i,
    {
        proof {
            assert(list.take(i + 1).drop_last() =~= list.take(i as int));
            assert(list.take(i + 1).last() == snippets@[i as int]@);
        }
        append_snippet(out, i + 1, &snippets[i], files);
        assert(out@ =~= old(out)@ + SNIPPETS_HEADING@ + snippets_listing(
            list.take(i + 1),
            files@,
        ));
        i = i + 1;
    }
    assert(list.take(snippets.len() as int) =~= list);
    out.append(SNIPPETS_END);
    assert(out@ =~= old(out)@ + snippets_part(list, files@));
}

fn append_task(out: &mut String, prefix: &str, suffix: &str, language: &str, uri: &str)
    ensures
        final(out)@ == old(out)@ + task_part(prefix@, suffix@, language@, uri@),
{
    out.append(TASK_OPEN);
    out.append(language);
    out.append(TASK_RULES);
    out.append(TASK_FILE);
    out.append(uri);
    out.append(TASK_GAP);
    out.append(prefix);
    out.append(CURSOR);
    out.append(suffix);
    assert(out@ =~= old(out)@ + task_part(prefix@, suffix@, language@, uri@));
}

/// The conversation that asks the model to complete the code at the
/// cursor: the instructions, then one request that shows the notes sorted by
/// file name, the snippets with the code they select, and the text before
/// and after the cursor.
pub fn build_messages(
    snapshot: &ContextSnapshot,
    prefix: &str,
    suffix: &str,
    language: &str,
    uri: &str,
) -> (r: Vec<ChatMessage>)
    ensures
        r.len() == 2,
        r[0].role@ == SYSTEM_ROLE@,
        r[0].content@ == SYSTEM_PROMPT@,
        r[1].role@ == USER_ROLE@,
        exists|names: Seq<Seq<char>>|
            is_sorted_listing(names, snapshot@.markdown_cache.dom()) && r[1].content@
                == user_prompt(snapshot@, names, prefix@, suffix@, language@, uri@),
{
    let mut content = String::new();
    let Ghost(names) = append_notes(&mut content, snapshot.markdown_cache());
    append_snippets(&mut content, snapshot.code_snippets(), snapshot.file_cache());
    append_task(&mut content, prefix, suffix, language, uri);
    assert(content@ =~= user_prompt(snapshot@, names, prefix@, suffix@, language@, uri@));
    let mut messages: Vec<ChatMessage> = Vec::new();
    messages.push(
        ChatMessage { role: SYSTEM_ROLE.to_owned(), content: SYSTEM_PROMPT.to_owned() },
    );
    messages.push(ChatMessage { role: USER_ROLE.to_owned(), content });
    messages
}

} // verus!
