//! Best-effort prompt capture.
//!
//! Nothing tells a plugin what the user typed at an agent: all there is, is the
//! pane's screen. The rule is narrow, because a wrong prompt on the right turn
//! confuses more than none: the last line of the screen that starts with a
//! prompt marker and carries real text, and nothing that looks like an input
//! box or its placeholder.
use crate::strings::{
    chars_of, is_space, join, join_with, lines, lines_of, opt_text, owned, space, starts_with,
    string_of, texts, trim, trim_str, words, words_of,
};
use vstd::prelude::*;
use vstd::string::*;

verus! {

/// Whether a character is a letter or a digit of any script.
pub uninterp spec fn is_alphanumeric(c: char) -> bool;

/// A text in lower case.
pub uninterp spec fn lowercased(text: Seq<char>) -> Seq<char>;

/// `char::is_alphanumeric`: whether a character has Unicode's `Alphabetic`
/// property or is numeric.
pub assume_specification[ char::is_alphanumeric ](c: char) -> (r: bool)
    ensures
        r == is_alphanumeric(c),
;

/// `str::to_lowercase`: the text with every character in Unicode's lower case.
pub assume_specification[ str::to_lowercase ](s: &str) -> (r: String)
    ensures
        r@ == lowercased(s@),
;

/// The longest prompt that is kept, in characters.
pub const MAX: usize = 160;

/// A mark that agents put before a message they echo.
pub open spec fn is_marker(c: char) -> bool {
    c == '>' || c == '❯' || c == '›' || c == '»'
}

/// What agents put into an empty input box begins like one of these.
pub open spec fn is_placeholder(lowered: Seq<char>) -> bool {
    ||| "build anything"@.is_prefix_of(lowered)
    ||| "ask anything"@.is_prefix_of(lowered)
    ||| "try \""@.is_prefix_of(lowered)
    ||| "type a message"@.is_prefix_of(lowered)
    ||| "how can i help"@.is_prefix_of(lowered)
    ||| "what would you like"@.is_prefix_of(lowered)
}

/// The text of a line behind its prompt marker and some space, without the
/// spaces that a terminal pads and wraps with.
pub open spec fn marked(line: Seq<char>) -> Option<Seq<char>> {
    let t = trim(line);
    if t.len() >= 2 && is_marker(t[0]) && is_space(t[1]) {
        Some(join(words(t.skip(1)), " "@))
    } else {
        None
    }
}

/// A text of at most so many characters, with a mark where it was cut.
pub open spec fn clipped(text: Seq<char>) -> Seq<char> {
    if text.len() <= MAX {
        text
    } else {
        text.take(MAX as int).push('…')
    }
}

/// Whether a text holds a letter or a digit.
pub open spec fn says_something(text: Seq<char>) -> bool {
    exists|i: int| 0 <= i < text.len() && #[trigger] is_alphanumeric(text[i])
}

/// The prompt one line holds.
pub open spec fn prompt_in(line: Seq<char>) -> Option<Seq<char>> {
    match marked(line) {
        Some(body) => if says_something(body) && !is_placeholder(lowercased(body)) {
            Some(clipped(body))
        } else {
            None
        },
        None => None,
    }
}

/// The last prompt among lines.
pub open spec fn last_prompt(lines: Seq<Seq<char>>) -> Option<Seq<char>>
    decreases lines.len(),
{
    if lines.len() == 0 {
        None
    } else {
        match prompt_in(lines.last()) {
            Some(prompt) => Some(prompt),
            None => last_prompt(lines.drop_last()),
        }
    }
}

/// The last thing on a screen that looks like a submitted prompt.
pub fn scrape(screen: &str) -> (r: Option<String>)
    ensures
        opt_text(r) == last_prompt(lines(screen@)),
{
    let all: Vec<String> = lines_of(screen);
    let mut i: usize = all.len();
    proof {
        assert(texts(all@).take(i as int) =~= texts(all@));
    }
    while i > 0
        invariant
            i <= all@.len(),
            texts(all@) == lines(screen@),
            last_prompt(texts(all@)) == last_prompt(texts(all@).take(i as int)),
        decreases i,
    {
        proof {
            let now = texts(all@).take(i as int);
            assert(now.last() == all@[i - 1]@);
            assert(now.drop_last() =~= texts(all@).take(i - 1));
        }
        i -= 1;
        if let Some(prompt) = candidate(all[i].as_str()) {
            return Some(prompt);
        }
    }
    None
}

/// The prompt one line holds.
fn candidate(line: &str) -> (r: Option<String>)
    ensures
        opt_text(r) == prompt_in(line@),
{
    match body_of(line) {
        Some(body) => {
            let says: bool = has_letter(body.as_str());
            let lowered: String = body.as_str().to_lowercase();
            accept(body.as_str(), says, lowered.as_str())
        },
        None => None,
    }
}

/// The text of a line behind its prompt marker, if it has one.
pub fn body_of(line: &str) -> (r: Option<String>)
    ensures
        opt_text(r) == marked(line@),
{
    let t: String = trim_str(line);
    let cs: Vec<char> = chars_of(t.as_str());
    if cs.len() < 2 {
        return None;
    }
    let first: char = cs[0];
    if !(first == '>' || first == '❯' || first == '›' || first == '»') {
        return None;
    }
    // A marker has to be followed by space: `>>>` in a transcript is none.
    if !space(cs[1]) {
        return None;
    }
    let rest: String = string_of(&cs, 1, cs.len());
    proof {
        assert(cs@.subrange(1, cs@.len() as int) =~= cs@.skip(1));
    }
    let parts: Vec<String> = words_of(rest.as_str());
    Some(join_with(&parts, " "))
}

/// Whether the text behind a marker is a prompt, and what is kept of it. `says`
/// is whether it holds a letter or a digit, and `lowered` is it in lower case.
pub fn accept(body: &str, says: bool, lowered: &str) -> (r: Option<String>)
    ensures
        opt_text(r) == if says && !is_placeholder(lowered@) {
            Some(clipped(body@))
        } else {
            None
        },
{
    if !says {
        return None;
    }
    if starts_with(lowered, "build anything") || starts_with(lowered, "ask anything")
        || starts_with(lowered, "try \"") || starts_with(lowered, "type a message") || starts_with(
        lowered,
        "how can i help",
    ) || starts_with(lowered, "what would you like") {
        return None;
    }
    Some(clip(body))
}

fn has_letter(text: &str) -> (r: bool)
    ensures
        r == says_something(text@),
{
    let cs: Vec<char> = chars_of(text);
    let mut i: usize = 0;
    while i < cs.len()
        invariant
            i <= cs@.len(),
            cs@ == text@,
            forall|k: int| 0 <= k < i ==> !#[trigger] is_alphanumeric(cs@[k]),
        decreases cs@.len() - i,
    {
        if cs[i].is_alphanumeric() {
            proof {
                assert(is_alphanumeric(text@[i as int]));
            }
            return true;
        }
        i += 1;
    }
    false
}

/// A text of at most so many characters, with a mark where it was cut.
pub fn clip(text: &str) -> (r: String)
    ensures
        r@ == clipped(text@),
{
    let cs: Vec<char> = chars_of(text);
    if cs.len() <= MAX {
        return owned(text);
    }
    proof {
        assert(cs@.subrange(0, MAX as int) =~= cs@.take(MAX as int));
    }
    let mut out: String = string_of(&cs, 0, MAX);
    out.push('…');
    out
}

/// A prompt is never longer than what is kept and the mark of the cut.
pub proof fn law_a_prompt_is_short(lines: Seq<Seq<char>>)
    ensures
        last_prompt(lines) matches Some(prompt) ==> prompt.len() <= MAX + 1,
    decreases lines.len(),
{
    if lines.len() > 0 {
        law_a_prompt_is_short(lines.drop_last());
    }
}

/// A line without a marker before it, such as one of a drawn frame, never
/// becomes a prompt.
pub proof fn law_only_a_marked_line_is_a_prompt(line: Seq<char>)
    requires
        prompt_in(line) is Some,
    ensures
        trim(line).len() >= 2,
        is_marker(trim(line)[0]),
        is_space(trim(line)[1]),
{
}

} // verus!
