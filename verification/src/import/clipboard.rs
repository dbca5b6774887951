//! Importing text from the clipboard: the title given to clipboard text.
use vstd::prelude::*;
use crate::text::{lines, split_lines, trim, trim_str, to_chars, string_of_range, push_str};

verus! {

/// The first line of `s`, or the empty text when it has none.
pub open spec fn first_line(s: Seq<char>) -> Seq<char> {
    if lines(s).len() > 0 {
        lines(s)[0]
    } else {
        seq![]
    }
}

/// The title of clipboard text: its first line, trimmed; cut to 47
/// characters and "..." when longer than 50; "Clipboard Import" when blank.
pub open spec fn clipboard_title(content: Seq<char>) -> Seq<char> {
    let t = trim(first_line(content));
    if t.len() == 0 {
        "Clipboard Import"@
    } else if t.len() > 50 {
        t.take(47) + "..."@
    } else {
        t
    }
}

/// Generate a title from text content.
pub fn generate_title(content: &str) -> (r: String)
    ensures
        r@ == clipboard_title(content@),
{
    let ls = split_lines(content);
    let first = if ls.len() > 0 {
        assert(ls@.map_values(|x: String| x@)[0] == ls@[0]@);
        trim_str(ls[0].as_str())
    } else {
        String::new()
    };
    let v = to_chars(first.as_str());
    if v.len() == 0 {
        return String::from_str("Clipboard Import");
    }
    if v.len() > 50 {
        let mut t = string_of_range(&v, 0, 47);
        assert(v@.subrange(0, 47) == v@.take(47));
        push_str(&mut t, "...");
        t
    } else {
        first
    }
}

/// A clipboard title is never empty and never longer than 50 characters.
pub proof fn law_clipboard_title_is_short(content: Seq<char>)
    ensures
        0 < clipboard_title(content).len() <= 50,
{
    reveal_strlit("Clipboard Import");
    reveal_strlit("...");
}

} // verus!
