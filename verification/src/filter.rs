use vstd::prelude::*;
use vstd::utf8::{decode_utf8, valid_utf8};

verus! {

/// Whether the configured pattern text compiles as a regular expression.
pub uninterp spec fn pattern_compiles(pattern: Seq<char>) -> bool;

/// The payload that the pattern extracts from one line: the text of the
/// pattern's first capture group where the line matches, and nothing where
/// the line does not match or the match has no first capture group.
/// Meaningful only for a pattern that compiles.
pub uninterp spec fn capture_one(pattern: Seq<char>, line: Seq<char>) -> Option<Seq<char>>;

/// Relies on regex::Regex::new: whether a pattern compiles depends on the
/// pattern text alone.
#[verifier::external_body]
fn compile_check(pattern: &str) -> (r: bool)
    ensures
        r == pattern_compiles(pattern@),
{
    regex::Regex::new(pattern).is_ok()
}

/// Relies on regex::Regex::new, regex::Regex::captures and
/// regex::Captures::get: for a fixed pattern and line, whether the line
/// matches and what its first capture group holds depend on those two strings
/// alone. An uncompilable pattern yields nothing.
#[verifier::external_body]
fn capture_group_one(pattern: &str, line: &str) -> (r: Option<String>)
    ensures
        pattern_compiles(pattern@) ==> r.deep_view() == capture_one(pattern@, line@),
        !pattern_compiles(pattern@) ==> r is None,
{
    let re = match regex::Regex::new(pattern) {
        Ok(re) => re,
        Err(_) => return None,
    };
    match re.captures(line) {
        Some(caps) => caps.get(1).map(|m| String::from(m.as_str())),
        None => None,
    }
}

/// Whether the configured pattern compiles. A pattern that does not compile
/// is a configuration error, fatal at startup: no filtering is possible
/// without a usable pattern.
pub fn pattern_is_valid(pattern: &str) -> (r: bool)
    ensures
        r == pattern_compiles(pattern@),
{
    compile_check(pattern)
}

/// Extract the payload of one line of text: the text of the pattern's first
/// capture group where the line matches, and nothing where it does not match
/// or the line is empty.
pub fn format_log_line(line: &str, pattern: &str) -> (r: Option<String>)
    ensures
        line@.len() == 0 ==> r is None,
        line@.len() > 0 && pattern_compiles(pattern@) ==> r.deep_view() == capture_one(
            pattern@,
            line@,
        ),
        !pattern_compiles(pattern@) ==> r is None,
{
    if line.is_empty() {
        return None;
    }
    capture_group_one(pattern, line)
}

/// A line with its terminator removed: one carriage return directly before
/// the line feed is dropped together with the line feed.
pub open spec fn strip_cr(line: Seq<u8>) -> Seq<u8> {
    if line.len() > 0 && line.last() == 13u8 {
        line.drop_last()
    } else {
        line
    }
}

/// The lines of `s` after the already-accumulated prefix `cur` of the current
/// line: text is split at each line feed, a carriage return directly before a
/// line feed is dropped, and a final unterminated segment forms a line only
/// if it is non-empty.
pub open spec fn lines_from(s: Seq<u8>, cur: Seq<u8>) -> Seq<Seq<u8>>
    decreases s.len(),
{
    if s.len() == 0 {
        if cur.len() == 0 {
            Seq::empty()
        } else {
            seq![cur]
        }
    } else if s[0] == 10u8 {
        seq![strip_cr(cur)] + lines_from(s.drop_first(), Seq::empty())
    } else {
        lines_from(s.drop_first(), cur.push(s[0]))
    }
}

/// The lines of a text, as `str::lines` yields them.
pub open spec fn spec_lines(s: Seq<u8>) -> Seq<Seq<u8>> {
    lines_from(s, Seq::empty())
}

/// Split a text into its lines: at each line feed, dropping a carriage
/// return that stands directly before a line feed, with an optional final
/// line ending.
pub fn split_lines(text: &Vec<u8>) -> (r: Vec<Vec<u8>>)
    ensures
        r.deep_view() == spec_lines(text@),
{
    let ghost whole: Seq<u8> = text@;
    let mut out: Vec<Vec<u8>> = Vec::new();
    let mut cur: Vec<u8> = Vec::new();
    let mut i: usize = 0;
    proof {
        assert(whole.subrange(0, whole.len() as int) =~= whole);
        assert(out.deep_view() + lines_from(whole, cur@) =~~= lines_from(whole, cur@));
    }
    while i < text.len()
        invariant
            i <= text@.len(),
            text@ == whole,
            spec_lines(whole) == out.deep_view() + lines_from(
                whole.subrange(i as int, whole.len() as int),
                cur@,
            ),
        decreases text@.len() - i,
    {
        let ghost rest: Seq<u8> = whole.subrange(i as int, whole.len() as int);
        let ghost prev_cur: Seq<u8> = cur@;
        let ghost prev_out: Seq<Seq<u8>> = out.deep_view();
        proof {
            assert(rest[0] == whole[i as int]);
            assert(rest.drop_first() =~= whole.subrange(i as int + 1, whole.len() as int));
        }
        let b = text[i];
        if b == 10u8 {
            if cur.len() > 0 && cur[cur.len() - 1] == 13u8 {
                cur.pop();
            }
            proof {
                assert(cur@ =~= strip_cr(prev_cur));
            }
            out.push(cur);
            cur = Vec::new();
            proof {
                assert(out.deep_view() =~~= prev_out.push(strip_cr(prev_cur)));
                assert(lines_from(rest, prev_cur) == seq![strip_cr(prev_cur)] + lines_from(
                    rest.drop_first(),
                    Seq::empty(),
                ));
                assert(prev_out + lines_from(rest, prev_cur) =~~= out.deep_view() + lines_from(
                    rest.drop_first(),
                    cur@,
                ));
            }
        } else {
            cur.push(b);
            proof {
                assert(lines_from(rest, prev_cur) == lines_from(rest.drop_first(), cur@));
            }
        }
        i += 1;
    }
    proof {
        assert(whole.subrange(i as int, whole.len() as int) =~= Seq::<u8>::empty());
    }
    if cur.len() > 0 {
        let ghost prev_out: Seq<Seq<u8>> = out.deep_view();
        let ghost last: Seq<u8> = cur@;
        out.push(cur);
        proof {
            assert(out.deep_view() =~~= prev_out.push(last));
            assert(prev_out + lines_from(Seq::empty(), last) =~~= out.deep_view());
        }
    } else {
        proof {
            assert(out.deep_view() + lines_from(Seq::<u8>::empty(), cur@) =~~= out.deep_view());
        }
    }
    out
}

/// Relies on core::str::from_utf8: it succeeds exactly on input that is valid
/// UTF-8 and returns the text those bytes encode.
#[verifier::external_body]
fn bytes_to_str(bytes: &[u8]) -> (r: Option<&str>)
    ensures
        match r {
            Some(s) => valid_utf8(bytes@) && s@ == decode_utf8(bytes@),
            None => !valid_utf8(bytes@),
        },
{
    core::str::from_utf8(bytes).ok()
}

/// The payload of one byte line: an empty line yields nothing, a line that is
/// not valid UTF-8 is treated as non-matching, and otherwise the line yields
/// whatever the pattern's first capture group extracts from it.
pub open spec fn payload_of(pattern: Seq<char>, line: Seq<u8>) -> Option<Seq<char>> {
    if line.len() == 0 {
        None
    } else if !valid_utf8(line) {
        None
    } else {
        capture_one(pattern, decode_utf8(line))
    }
}

/// The payloads of a sequence of lines, in line order.
pub open spec fn spec_payloads(pattern: Seq<char>, lines: Seq<Seq<u8>>) -> Seq<Seq<char>>
    decreases lines.len(),
{
    if lines.len() == 0 {
        Seq::empty()
    } else {
        let rest = spec_payloads(pattern, lines.drop_last());
        match payload_of(pattern, lines.last()) {
            Some(p) => rest.push(p),
            None => rest,
        }
    }
}

/// Split a text into lines and extract each line's payload, in line order.
/// Empty lines and lines that do not match yield no payload.
pub fn extract_payloads(text: &Vec<u8>, pattern: &str) -> (r: Vec<String>)
    ensures
        pattern_compiles(pattern@) ==> r.deep_view() == spec_payloads(
            pattern@,
            spec_lines(text@),
        ),
{
    let lines: Vec<Vec<u8>> = split_lines(text);
    let ghost all: Seq<Seq<u8>> = lines.deep_view();
    let mut out: Vec<String> = Vec::new();
    let mut i: usize = 0;
    while i < lines.len()
        invariant
            i <= lines@.len(),
            all == lines.deep_view(),
            all == spec_lines(text@),
            pattern_compiles(pattern@) ==> out.deep_view() == spec_payloads(
                pattern@,
                all.subrange(0, i as int),
            ),
        decreases lines@.len() - i,
    {
        let ghost prev_out: Seq<Seq<char>> = out.deep_view();
        let line: &Vec<u8> = &lines[i];
        proof {
            assert(all[i as int] =~= line@);
            assert(all.subrange(0, i as int + 1).drop_last() =~= all.subrange(0, i as int));
            assert(all.subrange(0, i as int + 1).last() == all[i as int]);
        }
        if line.len() > 0 {
            match bytes_to_str(line.as_slice()) {
                Some(s) => {
                    match format_log_line(s, pattern) {
                        Some(p) => {
                            let ghost pv: Seq<char> = p@;
                            out.push(p);
                            proof {
                                assert(out.deep_view() =~~= prev_out.push(pv));
                            }
                        },
                        None => {},
                    }
                },
                None => {},
            }
        }
        i += 1;
    }
    proof {
        assert(all.subrange(0, all.len() as int) =~= all);
    }
    out
}

/// Whether a byte is ASCII whitespace: character tabulation through carriage
/// return, or the space character.
pub open spec fn is_ascii_whitespace_byte(b: u8) -> bool {
    b == 32u8 || (9u8 <= b && b <= 13u8)
}

/// Whether the text is empty or made of ASCII whitespace alone: such a text
/// carries no messages and ends its cycle early.
pub open spec fn is_blank(s: Seq<u8>) -> bool {
    forall|i: int| 0 <= i < s.len() ==> is_ascii_whitespace_byte(s[i])
}

/// Whether every byte of the text is ASCII whitespace (an empty text is
/// blank).
pub fn text_is_blank(text: &Vec<u8>) -> (r: bool)
    ensures
        r == is_blank(text@),
{
    let mut i: usize = 0;
    while i < text.len()
        invariant
            i <= text@.len(),
            forall|j: int| 0 <= j < i ==> is_ascii_whitespace_byte(text@[j]),
        decreases text@.len() - i,
    {
        let b = text[i];
        if !(b == 32 || (9 <= b && b <= 13)) {
            assert(!is_ascii_whitespace_byte(text@[i as int]));
            return false;
        }
        i += 1;
    }
    true
}

} // verus!
