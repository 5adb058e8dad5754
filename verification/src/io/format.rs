//! The format of a model file, told by the ending of its name.

use vstd::prelude::*;
use vstd::string::*;
use crate::model::scan::to_chars;

verus! {

/// The formats in which a model is read.
#[derive(Debug, Clone, Copy, PartialEq, Eq, Structural)]
pub enum FileFormat {
    /// XMILE, under the endings `.xmile`, `.stmx` and `.itmx`.
    Xmile,
    /// JSON, under the ending `.json`.
    Json,
    /// YAML, under the endings `.yaml` and `.yml`.
    Yaml,
}

/// Whether the text ends with `ending`.
pub open spec fn ends_in(text: Seq<char>, ending: Seq<char>) -> bool {
    ending.len() <= text.len() && text.subrange(text.len() - ending.len(), text.len() as int)
        == ending
}

/// The format that the name of a file tells, if it tells one.
pub open spec fn told_by(name: Seq<char>) -> Option<FileFormat> {
    if ends_in(name, ".xmile"@) || ends_in(name, ".stmx"@) || ends_in(name, ".itmx"@) {
        Some(FileFormat::Xmile)
    } else if ends_in(name, ".json"@) {
        Some(FileFormat::Json)
    } else if ends_in(name, ".yaml"@) || ends_in(name, ".yml"@) {
        Some(FileFormat::Yaml)
    } else {
        None
    }
}

/// Whether the characters end with those of `ending`.
fn has_ending(text: &Vec<char>, ending: &str) -> (r: bool)
    ensures
        r == ends_in(text@, ending@),
{
    let tail = to_chars(ending);
    if tail.len() > text.len() {
        return false;
    }
    let from = text.len() - tail.len();
    let mut i: usize = 0;
    while i < tail.len()
        invariant
            i <= tail@.len(),
            tail@.len() == tail.len(),
            text@.len() == text.len(),
            tail@ == ending@,
            from + tail@.len() == text@.len(),
            forall|k: int| 0 <= k < i ==> text@[from + k] == tail@[k],
        decreases tail@.len() - i,
    {
        if text[from + i] != tail[i] {
            assert(text@.subrange(from as int, text@.len() as int)[i as int] != tail@[i as int]);
            return false;
        }
        i += 1;
    }
    assert(text@.subrange(from as int, text@.len() as int) =~= tail@);
    true
}

/// The format that the name of a file tells, if it tells one.
pub fn format_of(name: &str) -> (r: Option<FileFormat>)
    ensures
        r == told_by(name@),
{
    let chars = to_chars(name);
    if has_ending(&chars, ".xmile") || has_ending(&chars, ".stmx") || has_ending(&chars, ".itmx") {
        Some(FileFormat::Xmile)
    } else if has_ending(&chars, ".json") {
        Some(FileFormat::Json)
    } else if has_ending(&chars, ".yaml") || has_ending(&chars, ".yml") {
        Some(FileFormat::Yaml)
    } else {
        None
    }
}

/// The format that the extension of a file name tells, if it tells one:
/// beside the endings of the names, `xml` tells XMILE.
pub open spec fn told_by_extension(extension: Seq<char>) -> Option<FileFormat> {
    if extension == "json"@ {
        Some(FileFormat::Json)
    } else if extension == "yaml"@ || extension == "yml"@ {
        Some(FileFormat::Yaml)
    } else if extension == "xmile"@ || extension == "stmx"@ || extension == "itmx"@ || extension
        == "xml"@ {
        Some(FileFormat::Xmile)
    } else {
        None
    }
}

/// Whether the characters are those of `word`.
fn is_word(text: &Vec<char>, word: &str) -> (r: bool)
    ensures
        r == (text@ == word@),
{
    let same_length = text.len() == word.unicode_len();
    let r = same_length && has_ending(text, word);
    proof {
        if same_length {
            assert(text@.subrange(0, text@.len() as int) =~= text@);
        }
    }
    r
}

/// The format that the extension of a file name tells, if it tells one.
pub fn format_of_extension(extension: &str) -> (r: Option<FileFormat>)
    ensures
        r == told_by_extension(extension@),
{
    let chars = to_chars(extension);
    if is_word(&chars, "json") {
        Some(FileFormat::Json)
    } else if is_word(&chars, "yaml") || is_word(&chars, "yml") {
        Some(FileFormat::Yaml)
    } else if is_word(&chars, "xmile") || is_word(&chars, "stmx") || is_word(&chars, "itmx")
        || is_word(&chars, "xml") {
        Some(FileFormat::Xmile)
    } else {
        None
    }
}

} // verus!
