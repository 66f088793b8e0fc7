//! What the macOS mechanism computes around the helper `m1ddc`: the
//! arguments it is run with, the displays that its listing names, and the
//! texts of its reports.

use crate::platform::{
    display_models, BackendError, DisplayInfo, DisplayListReport, DisplayModel, DoctorReport,
};
use crate::text::number::{decimal, decimal_chars, parse_unsigned, parse_unsigned_chars};
use crate::text::search::{find_char, rfind_char};
use crate::text::{
    chars_of, push_chars, slice_chars, string_of, texts, trim, trim_chars, trim_end,
    trim_end_chars,
};
use vstd::prelude::*;

verus! {

/// Index of the first `c` in `s`.
pub open spec fn position(s: Seq<char>, c: char) -> Option<int>
    decreases s.len(),
{
    if s.len() == 0 {
        None
    } else if s[0] == c {
        Some(0)
    } else {
        match position(s.drop_first(), c) {
            Some(i) => Some(i + 1),
            None => None,
        }
    }
}

/// Index of the last `c` in `s`.
pub open spec fn last_position(s: Seq<char>, c: char) -> Option<int>
    decreases s.len(),
{
    if s.len() == 0 {
        None
    } else if s.last() == c {
        Some(s.len() - 1)
    } else {
        last_position(s.drop_last(), c)
    }
}

/// The index of a `c` with none before it is the first; without a `c`
/// there is none.
pub proof fn lemma_position_is(s: Seq<char>, c: char, found: Option<int>)
    requires
        match found {
            Some(i) => 0 <= i < s.len() && s[i] == c && !s.take(i).contains(c),
            None => !s.contains(c),
        },
    ensures
        position(s, c) == found,
    decreases s.len(),
{
    if s.len() > 0 {
        let rest = s.drop_first();
        match found {
            Some(i) => {
                if i > 0 {
                    assert(s.take(i)[0] == s[0]);
                    assert(s[0] != c);
                    let head = rest.take(i - 1);
                    assert(head =~= s.take(i).drop_first());
                    assert(!head.contains(c)) by {
                        if head.contains(c) {
                            let k = choose|k: int| 0 <= k < head.len() && head[k] == c;
                            assert(s.take(i)[k + 1] == c);
                        }
                    }
                    lemma_position_is(rest, c, Some(i - 1));
                }
            },
            None => {
                assert(s[0] != c);
                assert(!rest.contains(c)) by {
                    if rest.contains(c) {
                        let k = choose|k: int| 0 <= k < rest.len() && rest[k] == c;
                        assert(s[k + 1] == c);
                    }
                }
                lemma_position_is(rest, c, None);
            },
        }
    }
}

/// The index of a `c` with none after it is the last; without a `c` there
/// is none.
pub proof fn lemma_last_position_is(s: Seq<char>, c: char, found: Option<int>)
    requires
        match found {
            Some(i) => 0 <= i < s.len() && s[i] == c && !s.skip(i + 1).contains(c),
            None => !s.contains(c),
        },
    ensures
        last_position(s, c) == found,
    decreases s.len(),
{
    if s.len() > 0 {
        let rest = s.drop_last();
        match found {
            Some(i) => {
                if i < s.len() - 1 {
                    assert(s.skip(i + 1)[s.len() - 1 - (i + 1)] == s.last());
                    assert(s.last() != c);
                    let tail = rest.skip(i + 1);
                    assert(!tail.contains(c)) by {
                        if tail.contains(c) {
                            let k = choose|k: int| 0 <= k < tail.len() && tail[k] == c;
                            assert(s.skip(i + 1)[k] == c);
                        }
                    }
                    lemma_last_position_is(rest, c, Some(i));
                }
            },
            None => {
                assert(s.last() != c);
                assert(!rest.contains(c)) by {
                    if rest.contains(c) {
                        let k = choose|k: int| 0 <= k < rest.len() && rest[k] == c;
                        assert(s[k] == c);
                    }
                }
                lemma_last_position_is(rest, c, None);
            },
        }
    }
}

/// `s` without the closing brackets at its end.
pub open spec fn strip_closing(s: Seq<char>) -> Seq<char>
    decreases s.len(),
{
    if s.len() > 0 && s.last() == ')' {
        strip_closing(s.drop_last())
    } else {
        s
    }
}

/// The text, unless it is empty.
pub open spec fn text_or_none(s: Seq<char>) -> Option<Seq<char>> {
    if s.len() == 0 {
        None
    } else {
        Some(s)
    }
}

/// The index that stands between the square brackets: the number written
/// there, white space around it aside, or zero where no number of 32 bits
/// is written there.
pub open spec fn index_of_text(s: Seq<char>) -> u32 {
    match parse_unsigned(trim(s), u32::MAX as nat) {
        Some(n) => n as u32,
        None => 0,
    }
}

/// The display that a line of the listing names.
///
/// Such a line starts with the index in square brackets. What follows, white
/// space aside, is the product name and, in round brackets after it, the
/// UUID: the last opening bracket parts the two. Without an opening bracket
/// all of it is the name. A name or a UUID that is empty is not known.
/// White space at the end of the line does not count. Any other line names
/// no display.
pub open spec fn parse_display_line(line: Seq<char>) -> Option<DisplayModel> {
    let line = trim_end(line);
    if line.len() == 0 || line[0] != '[' {
        None
    } else {
        let rest = line.drop_first();
        match position(rest, ']') {
            None => None,
            Some(i) => {
                let index = index_of_text(rest.take(i));
                let header = trim(rest.skip(i + 1));
                if header.len() == 0 {
                    Some(DisplayModel { index, product_name: None, system_uuid: None })
                } else {
                    match last_position(header, '(') {
                        Some(j) => Some(
                            DisplayModel {
                                index,
                                product_name: text_or_none(trim(header.take(j))),
                                system_uuid: text_or_none(strip_closing(trim(header.skip(j + 1)))),
                            },
                        ),
                        None => Some(
                            DisplayModel { index, product_name: Some(header), system_uuid: None },
                        ),
                    }
                }
            },
        }
    }
}

/// The lines of a text: every line end starts a new line, so a text has one
/// line more than it has line ends.
pub open spec fn lines_of(s: Seq<char>) -> Seq<Seq<char>>
    decreases s.len(),
{
    if s.len() == 0 {
        seq![Seq::<char>::empty()]
    } else {
        let before = lines_of(s.drop_last());
        if s.last() == '\n' {
            before.push(Seq::<char>::empty())
        } else {
            before.drop_last().push(before.last().push(s.last()))
        }
    }
}

/// The displays that the lines name, in the order of the lines.
pub open spec fn displays_of_lines(lines: Seq<Seq<char>>) -> Seq<DisplayModel>
    decreases lines.len(),
{
    if lines.len() == 0 {
        Seq::empty()
    } else {
        let before = displays_of_lines(lines.drop_last());
        match parse_display_line(lines.last()) {
            Some(d) => before.push(d),
            None => before,
        }
    }
}

/// The displays that a listing of `m1ddc` names.
pub open spec fn listed_displays(raw: Seq<char>) -> Seq<DisplayModel> {
    displays_of_lines(lines_of(raw))
}

/// Every text has a line, if only an empty one.
pub proof fn lemma_lines_not_empty(s: Seq<char>)
    ensures
        lines_of(s).len() >= 1,
    decreases s.len(),
{
    if s.len() > 0 {
        lemma_lines_not_empty(s.drop_last());
    }
}

/// `v` without the closing brackets at its end.
pub fn strip_closing_chars(v: &Vec<char>) -> (r: Vec<char>)
    ensures
        r@ == strip_closing(v@),
{
    let mut n: usize = v.len();
    assert(v@.take(n as int) =~= v@);
    while n > 0 && v[n - 1] == ')'
        invariant
            n <= v.len(),
            strip_closing(v@) == strip_closing(v@.take(n as int)),
        decreases n,
    {
        assert(v@.take(n as int).drop_last() =~= v@.take(n - 1));
        n -= 1;
    }
    slice_chars(v, 0, n)
}

/// The string of `v`, unless `v` is empty.
pub fn string_or_none(v: &Vec<char>) -> (r: Option<String>)
    ensures
        crate::platform::optional_text(r) == text_or_none(v@),
{
    if v.len() == 0 {
        None
    } else {
        Some(string_of(v))
    }
}

/// Reads one line of the listing.
pub fn parse_line(line: &Vec<char>) -> (r: Option<DisplayInfo>)
    ensures
        match r {
            Some(d) => parse_display_line(line@) == Some(d@),
            None => parse_display_line(line@) is None,
        },
{
    let line = trim_end_chars(line);
    if line.len() == 0 || line[0] != '[' {
        return None;
    }
    let rest = slice_chars(&line, 1, line.len());
    assert(rest@ =~= line@.drop_first());
    let close = find_char(&rest, ']');
    proof {
        lemma_position_is(
            rest@,
            ']',
            match close {
                Some(i) => Some(i as int),
                None => None,
            },
        );
    }
    let i = match close {
        Some(i) => i,
        None => {
            return None;
        },
    };
    let number = trim_chars(&slice_chars(&rest, 0, i));
    let index: u32 = match parse_unsigned_chars(&number, u32::MAX as u64) {
        Some(n) => n as u32,
        None => 0,
    };
    let header = trim_chars(&slice_chars(&rest, i + 1, rest.len()));
    if header.len() == 0 {
        return Some(DisplayInfo { index, product_name: None, system_uuid: None });
    }
    let open = rfind_char(&header, '(');
    proof {
        lemma_last_position_is(
            header@,
            '(',
            match open {
                Some(j) => Some(j as int),
                None => None,
            },
        );
    }
    match open {
        Some(j) => {
            let name = trim_chars(&slice_chars(&header, 0, j));
            let uuid = strip_closing_chars(&trim_chars(&slice_chars(&header, j + 1, header.len())));
            Some(
                DisplayInfo {
                    index,
                    product_name: string_or_none(&name),
                    system_uuid: string_or_none(&uuid),
                },
            )
        },
        None => Some(
            DisplayInfo { index, product_name: Some(string_of(&header)), system_uuid: None },
        ),
    }
}

/// Reads the displays from a listing of `m1ddc`.
pub fn parse_display_list(raw: &str) -> (r: Vec<DisplayInfo>)
    ensures
        display_models(r@) == listed_displays(raw@),
{
    let chars = chars_of(raw);
    let mut displays: Vec<DisplayInfo> = Vec::new();
    let mut current: Vec<char> = Vec::new();
    let mut i: usize = 0;
    while i < chars.len()
        invariant
            i <= chars.len(),
            lines_of(chars@.take(i as int)).len() >= 1,
            current@ == lines_of(chars@.take(i as int)).last(),
            display_models(displays@) == displays_of_lines(
                lines_of(chars@.take(i as int)).drop_last(),
            ),
        decreases chars.len() - i,
    {
        let c = chars[i];
        let ghost lines = lines_of(chars@.take(i as int));
        let ghost next = chars@.take(i + 1);
        proof {
            assert(next.drop_last() =~= chars@.take(i as int));
            assert(next.last() == c);
            lemma_lines_not_empty(next);
        }
        if c == '\n' {
            let ghost models = display_models(displays@);
            assert(lines_of(next).drop_last() =~= lines);
            if let Some(d) = parse_line(&current) {
                displays.push(d);
                assert(display_models(displays@) =~= models.push(d@));
            }
            current = Vec::new();
        } else {
            current.push(c);
            assert(lines_of(next).drop_last() =~= lines.drop_last());
        }
        i += 1;
    }
    let ghost models = display_models(displays@);
    assert(chars@.take(chars.len() as int) =~= chars@);
    if let Some(d) = parse_line(&current) {
        displays.push(d);
        assert(display_models(displays@) =~= models.push(d@));
    }
    displays
}

/// What is said where the listing names no display.
pub open spec fn empty_listing_text(raw: Seq<char>) -> Seq<char> {
    "No displays parsed from m1ddc output. Raw output:\n"@ + trim(raw)
}

/// The report of an enumeration from the listing that `m1ddc` printed. A
/// listing that names no display is a failure.
pub fn list_report(raw: String) -> (r: Result<DisplayListReport, BackendError>)
    ensures
        match r {
            Ok(report) => {
                &&& display_models(report.displays@) == listed_displays(raw@)
                &&& listed_displays(raw@).len() > 0
                &&& report.raw == Some(raw)
            },
            Err(e) => {
                &&& listed_displays(raw@).len() == 0
                &&& e.context@ == empty_listing_text(raw@)
                &&& e.cause@.len() == 0
            },
        },
{
    let displays = parse_display_list(raw.as_str());
    if displays.len() == 0 {
        let mut context = String::from_str("No displays parsed from m1ddc output. Raw output:\n");
        let shown = trim_chars(&chars_of(raw.as_str()));
        push_chars(&mut context, &shown);
        return Err(BackendError { context, cause: String::new() });
    }
    Ok(DisplayListReport { displays, raw: Some(raw) })
}

/// The arguments that `m1ddc` is run with to select the input `value` on
/// the display that the selector names.
pub open spec fn set_input_arguments(display_selector: Seq<char>, value: u16) -> Seq<Seq<char>> {
    seq!["display"@, display_selector, "set"@, "input"@, decimal(value as nat)]
}

/// The arguments for selecting an input.
pub fn set_input_args(display_selector: &str, value: u16) -> (r: Vec<String>)
    ensures
        texts(r@) == set_input_arguments(display_selector@, value),
{
    let mut r: Vec<String> = Vec::new();
    r.push(String::from_str("display"));
    r.push(String::from_str(display_selector));
    r.push(String::from_str("set"));
    r.push(String::from_str("input"));
    r.push(string_of(&decimal_chars(value as u64)));
    assert(texts(r@) =~= set_input_arguments(display_selector@, value));
    r
}

/// What is said where `m1ddc` ended with a failure: how it ended, and what
/// it printed, white space at the ends aside.
pub open spec fn tool_failure_text(status: Seq<char>, stdout: Seq<char>, stderr: Seq<char>) -> Seq<
    char,
> {
    "m1ddc failed (exit="@ + status + "):\nstdout:\n"@ + trim(stdout) + "\nstderr:\n"@ + trim(
        stderr,
    )
}

/// The failure of a run of `m1ddc` that ended with a failure.
pub fn tool_failure(status: &str, stdout: &str, stderr: &str) -> (r: BackendError)
    ensures
        r.context@ == tool_failure_text(status@, stdout@, stderr@),
        r.cause@.len() == 0,
{
    let mut context = String::from_str("m1ddc failed (exit=");
    context.append(status);
    context.append("):\nstdout:\n");
    push_chars(&mut context, &trim_chars(&chars_of(stdout)));
    context.append("\nstderr:\n");
    push_chars(&mut context, &trim_chars(&chars_of(stderr)));
    BackendError { context, cause: String::new() }
}

/// What is said where `m1ddc` is not to be found.
pub open spec fn missing_tool_text() -> Seq<char> {
    "Missing dependency: `m1ddc`.\nInstall: `brew install m1ddc`\nIf you launch the tray app from Finder/LaunchAgent, PATH may not include Homebrew.\nExpected locations: /opt/homebrew/bin/m1ddc or /usr/local/bin/m1ddc\nOverride with: MONITORCTL_M1DDC_PATH=/path/to/m1ddc"@
}

/// The failure of a mechanism whose helper is not to be found.
pub fn missing_tool() -> (r: BackendError)
    ensures
        r.context@ == missing_tool_text(),
        r.cause@.len() == 0,
{
    BackendError {
        context: String::from_str(
            "Missing dependency: `m1ddc`.\nInstall: `brew install m1ddc`\nIf you launch the tray app from Finder/LaunchAgent, PATH may not include Homebrew.\nExpected locations: /opt/homebrew/bin/m1ddc or /usr/local/bin/m1ddc\nOverride with: MONITORCTL_M1DDC_PATH=/path/to/m1ddc",
        ),
        cause: String::new(),
    }
}

/// What is said where the selected input is asked for: `m1ddc` cannot read
/// it.
pub open spec fn get_input_unsupported_text() -> Seq<char> {
    "get-input is not implemented for the macOS m1ddc backend (m1ddc does not reliably expose raw VCP 0x60 reads)."@
}

/// The failure of reading the selected input.
pub fn get_input_unsupported() -> (r: BackendError)
    ensures
        r.context@ == get_input_unsupported_text(),
        r.cause@.len() == 0,
{
    BackendError {
        context: String::from_str(
            "get-input is not implemented for the macOS m1ddc backend (m1ddc does not reliably expose raw VCP 0x60 reads).",
        ),
        cause: String::new(),
    }
}

/// The line of the diagnosis that says where the helper is.
pub open spec fn tool_found_text(path: Seq<char>) -> Seq<char> {
    "m1ddc: OK ("@ + path + ")"@
}

/// What the diagnosis says once the helper was found at `path` and run
/// for a listing. A listing that is empty, white space aside, is a failure.
pub open spec fn doctor_text(path: Seq<char>, listing: Result<Seq<char>, Seq<char>>) -> (
    bool,
    Seq<char>,
) {
    match listing {
        Ok(out) => if trim(out).len() == 0 {
            (false, tool_found_text(path) + "\n"@ + "m1ddc ran but returned no displays."@)
        } else {
            (
                true,
                tool_found_text(path) + "\n\n"@ + "Detected displays:\n"@ + trim(out) + "\n\n"@
                    + "Note: m1ddc can set input, but does not expose reading raw VCP 0x60 on all monitors."@,
            )
        },
        Err(e) => (false, "m1ddc failed to list displays: "@ + e),
    }
}

/// The diagnosis where the helper is not to be found: what is said of that.
pub fn doctor_without_tool(error: &BackendError) -> (r: DoctorReport)
    ensures
        !r.ok,
        r.message@ == error.context@,
{
    DoctorReport { ok: false, message: error.text() }
}

/// The diagnosis where the helper was found at `path` and run for a
/// listing: `listing` is what it printed, or what went wrong.
pub fn doctor_with_tool(path: &str, listing: Result<String, String>) -> (r: DoctorReport)
    ensures
        (r.ok, r.message@) == doctor_text(
            path@,
            match listing {
                Ok(out) => Ok(out@),
                Err(e) => Err(e@),
            },
        ),
{
    match listing {
        Ok(out) => {
            let shown = trim_chars(&chars_of(out.as_str()));
            let mut message = String::from_str("m1ddc: OK (");
            message.append(path);
            message.append(")");
            if shown.len() == 0 {
                message.append("\n");
                message.append("m1ddc ran but returned no displays.");
                DoctorReport { ok: false, message }
            } else {
                message.append("\n\n");
                message.append("Detected displays:\n");
                push_chars(&mut message, &shown);
                message.append("\n\n");
                message.append(
                    "Note: m1ddc can set input, but does not expose reading raw VCP 0x60 on all monitors.",
                );
                DoctorReport { ok: true, message }
            }
        },
        Err(e) => {
            let mut message = String::from_str("m1ddc failed to list displays: ");
            message.append(e.as_str());
            DoctorReport { ok: false, message }
        },
    }
}

} // verus!
