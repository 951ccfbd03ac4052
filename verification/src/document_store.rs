//! The document that is open in the editor, and the text before and after
//! the cursor in it.

use vstd::prelude::*;
use vstd::string::StringSliceAdditionalSpecFns;
use vstd::utf8::{
    decode_utf8, decode_utf8_split, encode_utf8, encode_utf8_decode_utf8, encode_utf8_valid_utf8,
    is_char_boundary,
};
use crate::text::str_eq;

verus! {

/// The line feed that ends a line.
pub const LINE_FEED: u8 = 10;

/// The carriage return that may stand before a line feed.
pub const CARRIAGE_RETURN: u8 = 13;

/// The first position from `from` on that holds a line feed, or the length
/// of `bytes` when there is none.
pub open spec fn line_end(bytes: Seq<u8>, from: int) -> int
    decreases bytes.len() - from,
{
    if from >= bytes.len() {
        bytes.len() as int
    } else if bytes[from] == LINE_FEED {
        from
    } else {
        line_end(bytes, from + 1)
    }
}

/// The length of the line that starts at `from`, without its line ending:
/// the line feed, and a carriage return right before it.
pub open spec fn line_len(bytes: Seq<u8>, from: int) -> int {
    let end = line_end(bytes, from);
    if end < bytes.len() && end > from && bytes[end - 1] == CARRIAGE_RETURN {
        end - from - 1
    } else {
        end - from
    }
}

/// The count that stands for the cursor at column `character` of the line
/// `line`, lines counted from the one that starts at `from`: each line before
/// the cursor's counts with its length and one more, the cursor's own line
/// with the column, or with its length where the column lies beyond it. A
/// line past the last one counts nothing.
pub open spec fn cursor_count(bytes: Seq<u8>, from: int, line: nat, character: nat) -> int
    decreases line,
{
    if from >= bytes.len() {
        0
    } else if line == 0 {
        if character <= line_len(bytes, from) {
            character as int
        } else {
            line_len(bytes, from)
        }
    } else {
        line_len(bytes, from) + 1 + cursor_count(
            bytes,
            line_end(bytes, from) + 1,
            (line - 1) as nat,
            character,
        )
    }
}

/// The position in `bytes` at which the text is cut for the cursor at
/// (`line`, `character`): the cursor's count, and the end of the text where
/// the count goes beyond it.
pub open spec fn cursor_offset(bytes: Seq<u8>, line: nat, character: nat) -> int {
    let count = cursor_count(bytes, 0, line, character);
    if count <= bytes.len() {
        count
    } else {
        bytes.len() as int
    }
}

/// The end of a line is where a scan from its start first meets a line feed.
proof fn lemma_line_end(bytes: Seq<u8>, from: int, end: int)
    requires
        0 <= from <= end <= bytes.len(),
        forall|j: int| from <= j < end ==> bytes[j] != LINE_FEED,
        end == bytes.len() || bytes[end] == LINE_FEED,
    ensures
        line_end(bytes, from) == end,
    decreases end - from,
{
    if from < end {
        lemma_line_end(bytes, from + 1, end);
    }
}

/// The position in `bytes` at which the text is cut for the cursor at
/// (`line`, `character`).
pub fn cut_position(bytes: &[u8], line: u32, character: u32) -> (r: usize)
    ensures
        r == cursor_offset(bytes@, line as nat, character as nat),
        r <= bytes@.len(),
{
    let n = bytes.len();
    let mut from: usize = 0;
    let mut left: u32 = line;
    let mut count: usize = 0;
    let ghost total = cursor_count(bytes@, 0, line as nat, character as nat);
    while from < n
        invariant
            n == bytes@.len(),
            count <= from <= n,
            total == cursor_count(bytes@, 0, line as nat, character as nat),
            total == count + cursor_count(bytes@, from as int, left as nat, character as nat),
        decreases n - from,
    {
        let mut end: usize = from;
        while end < n && bytes[end] != LINE_FEED
            invariant
                n == bytes@.len(),
                from <= end <= n,
                forall|j: int| from <= j < end ==> bytes@[j] != LINE_FEED,
            decreases n - end,
        {
            end = end + 1;
        }
        proof {
            lemma_line_end(bytes@, from as int, end as int);
        }
        let len: usize = if end < n && end > from && bytes[end - 1] == CARRIAGE_RETURN {
            end - from - 1
        } else {
            end - from
        };
        assert(len == line_len(bytes@, from as int));
        if left == 0 {
            let column = character as usize;
            let within: usize = if column <= len {
                column
            } else {
                len
            };
            return count + within;
        }
        if end == n {
            // The last line has no line feed, and the cursor lies on a line
            // after it: nothing follows, and the count may pass the end.
            assert(cursor_count(bytes@, end + 1, (left - 1) as nat, character as nat) == 0);
            return if count + len >= n {
                n
            } else {
                count + len + 1
            };
        }
        count = count + len + 1;
        from = end + 1;
        left = left - 1;
    }
    count
}

/// The document that is open.
#[derive(Debug)]
struct DocumentContent {
    uri: String,
    language_id: String,
    text: String,
}

/// The mathematical value of an open document.
pub struct DocumentView {
    pub uri: Seq<char>,
    pub language_id: Seq<char>,
    pub text: Seq<char>,
}

/// Keeps the text of the document that is open in the editor.
#[derive(Debug)]
pub struct DocumentStore {
    active_doc: Option<DocumentContent>,
}

impl View for DocumentStore {
    type V = Option<DocumentView>;

    closed spec fn view(&self) -> Option<DocumentView> {
        match self.active_doc {
            Some(doc) => Some(
                DocumentView { uri: doc.uri@, language_id: doc.language_id@, text: doc.text@ },
            ),
            None => None,
        }
    }
}

/// What the cursor at (`line`, `character`) splits the document into, when
/// the document is the one at `uri` and the cut falls between two
/// characters: the text before the cut, the text after it and the
/// document's language.
pub open spec fn context_at(doc: Option<DocumentView>, uri: Seq<char>, line: nat, character: nat) -> Option<
    (Seq<char>, Seq<char>, Seq<char>),
> {
    match doc {
        Some(d) => {
            let bytes = encode_utf8(d.text);
            let cut = cursor_offset(bytes, line, character);
            if d.uri == uri && is_char_boundary(bytes, cut) {
                Some(
                    (
                        decode_utf8(bytes.subrange(0, cut)),
                        decode_utf8(bytes.subrange(cut, bytes.len() as int)),
                        d.language_id,
                    ),
                )
            } else {
                None
            }
        },
        None => None,
    }
}

impl DocumentStore {
    /// A store with no document open.
    pub fn new() -> (r: Self)
        ensures
            r@ is None,
    {
        DocumentStore { active_doc: None }
    }

    /// Opens a document; it takes the place of the one that was open.
    pub fn did_open(&mut self, uri: String, language_id: String, text: String)
        ensures
            final(self)@ == Some(DocumentView { uri: uri@, language_id: language_id@, text: text@ }),
    {
        self.active_doc = Some(DocumentContent { uri, language_id, text });
    }

    /// Replaces the text of the open document, if it is the one at `uri`.
    pub fn did_change(&mut self, uri: &str, text: String)
        ensures
            final(self)@ == match old(self)@ {
                Some(doc) => if doc.uri == uri@ {
                    Some(DocumentView { text: text@, ..doc })
                } else {
                    Some(doc)
                },
                None => None,
            },
    {
        let matches = match &self.active_doc {
            Some(doc) => str_eq(doc.uri.as_str(), uri),
            None => false,
        };
        if matches {
            let doc = self.active_doc.take().unwrap();
            self.active_doc = Some(
                DocumentContent { uri: doc.uri, language_id: doc.language_id, text },
            );
        }
    }

    /// Closes the open document, if it is the one at `uri`.
    pub fn did_close(&mut self, uri: &str)
        ensures
            final(self)@ == match old(self)@ {
                Some(doc) => if doc.uri == uri@ {
                    None
                } else {
                    Some(doc)
                },
                None => None,
            },
    {
        let matches = match &self.active_doc {
            Some(doc) => str_eq(doc.uri.as_str(), uri),
            None => false,
        };
        if matches {
            self.active_doc = None;
        }
    }

    /// The text before the cursor, the text after it and the language of
    /// the open document, if it is the one at `uri` and the cursor does not
    /// fall inside a character.
    pub fn get_context(&self, uri: &str, line: u32, character: u32) -> (r: Option<
        (String, String, String),
    >)
        ensures
            match r {
                Some((prefix, suffix, language)) => context_at(
                    self@,
                    uri@,
                    line as nat,
                    character as nat,
                ) == Some((prefix@, suffix@, language@)) && prefix@ + suffix@ == self@->0.text,
                None => context_at(self@, uri@, line as nat, character as nat) is None,
            },
    {
        match &self.active_doc {
            None => None,
            Some(doc) => {
                if !str_eq(doc.uri.as_str(), uri) {
                    return None;
                }
                let text = doc.text.as_str();
                let cut = cut_position(text.as_bytes(), line, character);
                if !text.is_char_boundary(cut) {
                    return None;
                }
                let (before, after) = text.split_at(cut);
                proof {
                    let bytes = encode_utf8(doc.text@);
                    encode_utf8_valid_utf8(doc.text@);
                    decode_utf8_split(bytes, cut as int);
                    encode_utf8_decode_utf8(doc.text@);
                    encode_utf8_decode_utf8(before@);
                    encode_utf8_decode_utf8(after@);
                }
                Some((before.to_owned(), after.to_owned(), doc.language_id.clone()))
            },
        }
    }
}

} // verus!
