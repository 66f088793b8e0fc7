//! What the Windows mechanism computes around the system calls: which
//! monitor a selector names, and the texts of its reports.
//!
//! A monitor is known here by its description, in the order in which the
//! system enumerates the monitors.

use crate::platform::{BackendError, DisplayInfo, DisplayListReport, DisplayModel, DoctorReport};
use crate::text::number::{decimal, decimal_chars, parse_unsigned, parse_unsigned_chars};
use crate::text::search::{
    contains_ignore_case, contains_ignore_case_chars, starts_with, starts_with_chars,
};
use crate::text::{chars_of, join, join_strings, push_chars, slice_chars, texts, trim, trim_chars};
use crate::tray::platform::windows::{utf16_of, utf16_of_char};
use vstd::prelude::*;
use vstd::slice::slice_subrange;

verus! {

/// `u` is one half of a surrogate pair.
pub open spec fn is_surrogate(u: u16) -> bool {
    0xD800 <= u <= 0xDFFF
}

/// `first` and `second` are a surrogate pair: a leading half and a
/// trailing half.
pub open spec fn is_pair(first: u16, second: u16) -> bool {
    0xD800 <= first <= 0xDBFF && 0xDC00 <= second <= 0xDFFF
}

/// The character that a surrogate pair encodes.
pub open spec fn pair_char(first: u16, second: u16) -> char {
    (0x1_0000 + (first - 0xD800) * 0x400 + (second - 0xDC00)) as char
}

/// The text that UTF-16 code units encode, read leniently: a unit that is
/// no surrogate is its character, a surrogate pair is the character it
/// encodes, and a surrogate that is not part of a pair becomes the
/// replacement character U+FFFD.
pub open spec fn utf16_lossy(units: Seq<u16>) -> Seq<char>
    decreases units.len(),
{
    if units.len() == 0 {
        Seq::empty()
    } else if !is_surrogate(units[0]) {
        seq![units[0] as char] + utf16_lossy(units.drop_first())
    } else if units.len() >= 2 && is_pair(units[0], units[1]) {
        seq![pair_char(units[0], units[1])] + utf16_lossy(units.skip(2))
    } else {
        seq!['\u{FFFD}'] + utf16_lossy(units.drop_first())
    }
}

/// Calls `String::from_utf16_lossy`. Claimed, as std documents it: the
/// string is the text that the code units encode, with the replacement
/// character for every surrogate that is not part of a pair.
#[verifier::external_body]
fn decode_utf16_lossy(units: &[u16]) -> (r: String)
    ensures
        r@ == utf16_lossy(units@),
{
    String::from_utf16_lossy(units)
}

/// Reading the code units of a character, with whatever follows them,
/// gives the character and the reading of what follows.
pub proof fn lemma_read_char(c: char, rest: Seq<u16>)
    ensures
        utf16_lossy(utf16_of_char(c) + rest) == seq![c] + utf16_lossy(rest),
{
    let units = utf16_of_char(c) + rest;
    let n = c as u32;
    if n < 0x1_0000 {
        assert(units[0] == n as u16);
        assert(!is_surrogate(units[0]));
        assert(units.drop_first() =~= rest);
        assert(units[0] as char == c);
    } else {
        let m = (n - 0x1_0000) as int;
        assert(units[0] == (0xD800 + m / 0x400) as u16);
        assert(units[1] == (0xDC00 + m % 0x400) as u16);
        assert(is_pair(units[0], units[1]));
        assert(units.skip(2) =~= rest);
        assert(pair_char(units[0], units[1]) == c);
    }
}

/// The code units of a text are those of its first character and then
/// those of the rest.
pub proof fn lemma_units_of_first(c: char, s: Seq<char>)
    ensures
        utf16_of(seq![c] + s) == utf16_of_char(c) + utf16_of(s),
    decreases s.len(),
{
    let all = seq![c] + s;
    if s.len() == 0 {
        assert(all.drop_last() =~= Seq::<char>::empty());
        assert(all.last() == c);
        assert(utf16_of(Seq::<char>::empty()) =~= Seq::<u16>::empty());
        assert(s =~= Seq::<char>::empty());
        assert(utf16_of(all) =~= utf16_of_char(c) + utf16_of(s));
    } else {
        assert(all.drop_last() =~= seq![c] + s.drop_last());
        assert(all.last() == s.last());
        lemma_units_of_first(c, s.drop_last());
        let head = utf16_of_char(c);
        let body = utf16_of(s.drop_last());
        let tail = utf16_of_char(s.last());
        assert(utf16_of(all) == (head + body) + tail);
        assert(utf16_of(s) == body + tail);
        assert((head + body) + tail =~= head + (body + tail));
    }
}

/// Reading what a text was written as gives the text back: nothing is
/// replaced in well-formed UTF-16.
pub proof fn lemma_read_what_was_written(s: Seq<char>)
    ensures
        utf16_lossy(utf16_of(s)) == s,
    decreases s.len(),
{
    if s.len() > 0 {
        let c = s[0];
        let rest = s.drop_first();
        assert(s =~= seq![c] + rest);
        lemma_units_of_first(c, rest);
        lemma_read_char(c, utf16_of(rest));
        lemma_read_what_was_written(rest);
    }
}

/// The number of code units before the first that is zero, or the number
/// of all where none is zero.
pub open spec fn first_nul(w: Seq<u16>) -> nat
    decreases w.len(),
{
    if w.len() == 0 || w[0] == 0 {
        0
    } else {
        1 + first_nul(w.drop_first())
    }
}

/// Where a count stops at a zero or at the end, with no zero before, it is
/// `first_nul`.
pub proof fn lemma_first_nul_is(w: Seq<u16>, n: int)
    requires
        0 <= n <= w.len(),
        forall|i: int| 0 <= i < n ==> #[trigger] w[i] != 0,
        n < w.len() ==> w[n] == 0,
    ensures
        first_nul(w) == n,
    decreases w.len(),
{
    if n > 0 {
        let rest = w.drop_first();
        assert(w[0] != 0);
        assert forall|i: int| 0 <= i < n - 1 implies #[trigger] rest[i] != 0 by {
            assert(rest[i] == w[i + 1]);
        }
        lemma_first_nul_is(rest, n - 1);
    }
}

/// The text of a wide string: what stands before the first zero, read as
/// UTF-16.
pub fn wide_to_string(w: &[u16]) -> (r: String)
    ensures
        r@ == utf16_lossy(w@.take(first_nul(w@) as int)),
{
    let mut nul: usize = 0;
    while nul < w.len() && w[nul] != 0
        invariant
            nul <= w.len(),
            forall|i: int| 0 <= i < nul ==> #[trigger] w@[i] != 0,
        decreases w.len() - nul,
    {
        nul += 1;
    }
    proof {
        lemma_first_nul_is(w@, nul as int);
    }
    decode_utf16_lossy(slice_subrange(w, 0, nul))
}

/// The raw input value that a reading of the monitor stands for: the
/// reading itself, or the greatest value where the reading is greater.
pub fn input_of_reading(current: u32) -> (r: u16)
    ensures
        r == if current <= 0xFFFF {
            current as int
        } else {
            0xFFFF
        },
{
    if current <= 0xFFFF {
        current as u16
    } else {
        0xFFFF
    }
}

/// The line that shows the monitor at position `i`, counted from zero:
/// its number, counted from one, and its description.
pub open spec fn numbered_line(i: int, description: Seq<char>) -> Seq<char> {
    "["@ + decimal((i + 1) as nat) + "] "@ + description
}

/// One line for each monitor.
pub open spec fn monitor_lines(descriptions: Seq<Seq<char>>) -> Seq<Seq<char>> {
    Seq::new(descriptions.len(), |i: int| numbered_line(i, descriptions[i]))
}

/// The list of the monitors, one to a line.
pub open spec fn monitor_list(descriptions: Seq<Seq<char>>) -> Seq<char> {
    join(monitor_lines(descriptions), "\n"@)
}

/// One line for each of the monitors at the positions `positions`.
pub open spec fn match_lines(descriptions: Seq<Seq<char>>, positions: Seq<usize>) -> Seq<Seq<char>> {
    Seq::new(
        positions.len(),
        |k: int| numbered_line(positions[k] as int, descriptions[positions[k] as int]),
    )
}

/// The line that shows the monitor at position `i`.
pub fn format_monitor_line(i: usize, description: &str) -> (r: String)
    requires
        i < usize::MAX,
    ensures
        r@ == numbered_line(i as int, description@),
{
    let mut r = String::from_str("[");
    let digits = decimal_chars((i + 1) as u64);
    push_chars(&mut r, &digits);
    r.append("] ");
    r.append(description);
    r
}

/// The list of the monitors, one to a line, each with its number.
pub fn format_monitor_list(descriptions: &Vec<String>) -> (r: String)
    ensures
        r@ == monitor_list(texts(descriptions@)),
{
    let mut lines: Vec<String> = Vec::new();
    let mut i: usize = 0;
    while i < descriptions.len()
        invariant
            i <= descriptions.len(),
            lines@.len() == i,
            forall|k: int|
                0 <= k < i ==> (#[trigger] lines@[k])@ == numbered_line(k, descriptions@[k]@),
        decreases descriptions.len() - i,
    {
        lines.push(format_monitor_line(i, descriptions[i].as_str()));
        i += 1;
    }
    assert(texts(lines@) =~= monitor_lines(texts(descriptions@)));
    join_strings(&lines, "\n")
}

/// The positions of the monitors whose description has `needle` in it,
/// letters compared without regard to case, in increasing order.
pub open spec fn matching(descriptions: Seq<Seq<char>>, needle: Seq<char>) -> Seq<usize>
    decreases descriptions.len(),
{
    if descriptions.len() == 0 {
        Seq::empty()
    } else {
        let before = matching(descriptions.drop_last(), needle);
        if contains_ignore_case(descriptions.last(), needle) {
            before.push((descriptions.len() - 1) as usize)
        } else {
            before
        }
    }
}

/// Every position that `matching` gives is a position of the list.
pub proof fn lemma_matching_in_range(descriptions: Seq<Seq<char>>, needle: Seq<char>)
    requires
        descriptions.len() <= usize::MAX,
    ensures
        forall|k: int|
            0 <= k < matching(descriptions, needle).len() ==> 0 <= (#[trigger] matching(
                descriptions,
                needle,
            )[k]) < descriptions.len(),
    decreases descriptions.len(),
{
    if descriptions.len() > 0 {
        let before = matching(descriptions.drop_last(), needle);
        let all = matching(descriptions, needle);
        lemma_matching_in_range(descriptions.drop_last(), needle);
        assert forall|k: int| 0 <= k < all.len() implies 0 <= (#[trigger] all[k])
            < descriptions.len() by {
            if k < before.len() {
                assert(all[k] == before[k]);
            }
        }
    }
}

/// Why a selector names no monitor.
#[derive(Debug, Clone)]
pub enum SelectorError {
    /// The selector is the number zero: monitors count from one.
    Zero,
    /// The selector is a number greater than the number of monitors.
    OutOfRange { index: usize, available: String },
    /// The selector asks for a text, and the text is empty.
    EmptyName,
    /// No monitor has the text in its description.
    NoMatch { selector: String, available: String },
    /// More than one monitor has the text in its description.
    Ambiguous { selector: String, matches: String },
    /// The selector is neither a number nor `name:` with a text.
    Invalid { selector: String },
}

/// A selector error as contracts see it.
pub enum SelectorErrorModel {
    Zero,
    OutOfRange { index: usize, available: Seq<char> },
    EmptyName,
    NoMatch { selector: Seq<char>, available: Seq<char> },
    Ambiguous { selector: Seq<char>, matches: Seq<char> },
    Invalid { selector: Seq<char> },
}

impl View for SelectorError {
    type V = SelectorErrorModel;

    open spec fn view(&self) -> SelectorErrorModel {
        match self {
            SelectorError::Zero => SelectorErrorModel::Zero,
            SelectorError::OutOfRange { index, available } => SelectorErrorModel::OutOfRange {
                index: *index,
                available: available@,
            },
            SelectorError::EmptyName => SelectorErrorModel::EmptyName,
            SelectorError::NoMatch { selector, available } => SelectorErrorModel::NoMatch {
                selector: selector@,
                available: available@,
            },
            SelectorError::Ambiguous { selector, matches } => SelectorErrorModel::Ambiguous {
                selector: selector@,
                matches: matches@,
            },
            SelectorError::Invalid { selector } => SelectorErrorModel::Invalid {
                selector: selector@,
            },
        }
    }
}

/// What is said of a selector error.
pub open spec fn selector_error_text(e: SelectorErrorModel) -> Seq<char> {
    match e {
        SelectorErrorModel::Zero => "display selector must be >= 1"@,
        SelectorErrorModel::OutOfRange { index, available } => "Display "@ + decimal(index as nat)
            + " out of range. Available:\n"@ + available,
        SelectorErrorModel::EmptyName => "display selector 'name:' requires a non-empty substring"@,
        SelectorErrorModel::NoMatch { selector, available } => "No monitors matched selector '"@
            + selector + "'. Available:\n"@ + available,
        SelectorErrorModel::Ambiguous { selector, matches } => "Selector '"@ + selector
            + "' is ambiguous. Matches:\n"@ + matches
            + "\n\nUse `--display <index>` from `list`, or a more specific `name:<substring>`."@,
        SelectorErrorModel::Invalid { selector } => "Invalid display selector '"@ + selector
            + "'. Expected a 1-based index (e.g. '1') or `name:<substring>`."@,
    }
}

impl SelectorError {
    /// What to tell the user.
    pub fn message(&self) -> (r: String)
        ensures
            r@ == selector_error_text(self@),
    {
        match self {
            SelectorError::Zero => String::from_str("display selector must be >= 1"),
            SelectorError::OutOfRange { index, available } => {
                let mut r = String::from_str("Display ");
                let digits = decimal_chars(*index as u64);
                push_chars(&mut r, &digits);
                r.append(" out of range. Available:\n");
                r.append(available.as_str());
                r
            },
            SelectorError::EmptyName => String::from_str(
                "display selector 'name:' requires a non-empty substring",
            ),
            SelectorError::NoMatch { selector, available } => {
                let mut r = String::from_str("No monitors matched selector '");
                r.append(selector.as_str());
                r.append("'. Available:\n");
                r.append(available.as_str());
                r
            },
            SelectorError::Ambiguous { selector, matches } => {
                let mut r = String::from_str("Selector '");
                r.append(selector.as_str());
                r.append("' is ambiguous. Matches:\n");
                r.append(matches.as_str());
                r.append(
                    "\n\nUse `--display <index>` from `list`, or a more specific `name:<substring>`.",
                );
                r
            },
            SelectorError::Invalid { selector } => {
                let mut r = String::from_str("Invalid display selector '");
                r.append(selector.as_str());
                r.append("'. Expected a 1-based index (e.g. '1') or `name:<substring>`.");
                r
            },
        }
    }
}

/// The words before the text in a selector that asks for a text.
pub open spec fn name_prefix() -> Seq<char> {
    "name:"@
}

/// The monitor that the selector names, as a position counted from zero,
/// or why it names none.
///
/// A selector that is a number names the monitor with that number, counted
/// from one. A selector `name:` with a text names the one monitor that has
/// the text in its description, letters compared without regard to case;
/// white space around the text does not count. Where several monitors
/// have the text the selector names none of them.
pub open spec fn selector_spec(selector: Seq<char>, descriptions: Seq<Seq<char>>) -> Result<
    usize,
    SelectorErrorModel,
> {
    match parse_unsigned(selector, usize::MAX as nat) {
        Some(n) => if n == 0 {
            Err(SelectorErrorModel::Zero)
        } else if n > descriptions.len() {
            Err(
                SelectorErrorModel::OutOfRange {
                    index: n as usize,
                    available: monitor_list(descriptions),
                },
            )
        } else {
            Ok((n - 1) as usize)
        },
        None => if starts_with(selector, name_prefix()) {
            let needle = trim(selector.skip(name_prefix().len() as int));
            let found = matching(descriptions, needle);
            if needle.len() == 0 {
                Err(SelectorErrorModel::EmptyName)
            } else if found.len() == 0 {
                Err(
                    SelectorErrorModel::NoMatch {
                        selector,
                        available: monitor_list(descriptions),
                    },
                )
            } else if found.len() > 1 {
                Err(
                    SelectorErrorModel::Ambiguous {
                        selector,
                        matches: join(match_lines(descriptions, found), "\n"@),
                    },
                )
            } else {
                Ok(found[0])
            }
        } else {
            Err(SelectorErrorModel::Invalid { selector })
        },
    }
}

/// The positions of the monitors whose description has `needle` in it.
pub fn find_matching(descriptions: &Vec<String>, needle: &Vec<char>) -> (r: Vec<usize>)
    ensures
        r@ == matching(texts(descriptions@), needle@),
{
    let ghost all = texts(descriptions@);
    let mut r: Vec<usize> = Vec::new();
    let mut i: usize = 0;
    while i < descriptions.len()
        invariant
            i <= descriptions.len(),
            all == texts(descriptions@),
            r@ == matching(all.take(i as int), needle@),
        decreases descriptions.len() - i,
    {
        let hay = chars_of(descriptions[i].as_str());
        assert(all.take(i + 1).drop_last() =~= all.take(i as int));
        assert(all.take(i + 1).last() == hay@);
        if contains_ignore_case_chars(&hay, needle) {
            r.push(i);
        }
        i += 1;
    }
    assert(all.take(descriptions.len() as int) =~= all);
    r
}

/// Finds the monitor that the selector names among the monitors with the
/// descriptions `descriptions`. The position returned counts from zero.
pub fn resolve_selector(display_selector: &str, descriptions: &Vec<String>) -> (r: Result<
    usize,
    SelectorError,
>)
    ensures
        match r {
            Ok(position) => selector_spec(display_selector@, texts(descriptions@)) == Ok::<
                usize,
                SelectorErrorModel,
            >(position) && position < descriptions@.len(),
            Err(e) => selector_spec(display_selector@, texts(descriptions@)) == Err::<
                usize,
                SelectorErrorModel,
            >(e@),
        },
{
    let chars = chars_of(display_selector);
    if let Some(n) = parse_unsigned_chars(&chars, usize::MAX as u64) {
        if n == 0 {
            return Err(SelectorError::Zero);
        }
        let index = n as usize;
        if index > descriptions.len() {
            return Err(
                SelectorError::OutOfRange {
                    index,
                    available: format_monitor_list(descriptions),
                },
            );
        }
        return Ok(index - 1);
    }
    let prefix = chars_of("name:");
    if !starts_with_chars(&chars, &prefix) {
        return Err(SelectorError::Invalid { selector: String::from_str(display_selector) });
    }
    let rest = slice_chars(&chars, prefix.len(), chars.len());
    let needle = trim_chars(&rest);
    if needle.len() == 0 {
        return Err(SelectorError::EmptyName);
    }
    let found = find_matching(descriptions, &needle);
    let total = descriptions.len();
    proof {
        lemma_matching_in_range(texts(descriptions@), needle@);
    }
    if found.len() == 0 {
        return Err(
            SelectorError::NoMatch {
                selector: String::from_str(display_selector),
                available: format_monitor_list(descriptions),
            },
        );
    }
    if found.len() > 1 {
        let mut lines: Vec<String> = Vec::new();
        let mut k: usize = 0;
        while k < found.len()
            invariant
                k <= found.len(),
                total == descriptions@.len(),
                lines@.len() == k,
                forall|j: int| 0 <= j < found@.len() ==> 0 <= (#[trigger] found@[j]) < descriptions@.len(),
                forall|j: int|
                    0 <= j < k ==> (#[trigger] lines@[j])@ == numbered_line(
                        found@[j] as int,
                        descriptions@[found@[j] as int]@,
                    ),
            decreases found.len() - k,
        {
            let position = found[k];
            lines.push(format_monitor_line(position, descriptions[position].as_str()));
            k += 1;
        }
        assert(texts(lines@) =~= match_lines(texts(descriptions@), found@));
        return Err(
            SelectorError::Ambiguous {
                selector: String::from_str(display_selector),
                matches: join_strings(&lines, "\n"),
            },
        );
    }
    assert(0 <= found@[0] < descriptions@.len());
    Ok(found[0])
}

/// What is said where the system knows of no monitor.
pub open spec fn no_monitors_text() -> Seq<char> {
    "No physical monitors found via Dxva2."@
}

/// The displays that stand for the monitors: numbered from one, named by
/// their descriptions.
pub open spec fn displays_of(descriptions: Seq<Seq<char>>) -> Seq<DisplayModel> {
    Seq::new(
        descriptions.len(),
        |i: int|
            DisplayModel {
                index: (i + 1) as u32,
                product_name: Some(descriptions[i]),
                system_uuid: None,
            },
    )
}

/// The report of an enumeration that found the monitors with the
/// descriptions `descriptions`. Finding no monitor is a failure.
pub fn list_report(descriptions: &Vec<String>) -> (r: Result<DisplayListReport, BackendError>)
    requires
        descriptions@.len() <= u32::MAX,
    ensures
        match r {
            Ok(report) => {
                &&& descriptions@.len() > 0
                &&& crate::platform::display_models(report.displays@) == displays_of(
                    texts(descriptions@),
                )
                &&& report.raw matches Some(raw) && raw@ == monitor_list(texts(descriptions@))
            },
            Err(e) => descriptions@.len() == 0 && e.context@ == no_monitors_text()
                && e.cause@.len() == 0,
        },
{
    if descriptions.len() == 0 {
        return Err(
            BackendError {
                context: String::from_str("No physical monitors found via Dxva2."),
                cause: String::new(),
            },
        );
    }
    let mut displays: Vec<DisplayInfo> = Vec::new();
    let mut i: usize = 0;
    while i < descriptions.len()
        invariant
            i <= descriptions.len(),
            descriptions@.len() <= u32::MAX,
            displays@.len() == i,
            forall|k: int|
                0 <= k < i ==> (#[trigger] displays@[k])@ == (DisplayModel {
                    index: (k + 1) as u32,
                    product_name: Some(descriptions@[k]@),
                    system_uuid: None,
                }),
        decreases descriptions.len() - i,
    {
        displays.push(
            DisplayInfo {
                index: (i + 1) as u32,
                product_name: Some(descriptions[i].clone()),
                system_uuid: None,
            },
        );
        i += 1;
    }
    assert(crate::platform::display_models(displays@) =~= displays_of(texts(descriptions@)));
    Ok(DisplayListReport { displays, raw: Some(format_monitor_list(descriptions)) })
}

/// What the diagnosis says of an enumeration.
pub open spec fn doctor_text(enumerated: Result<Seq<Seq<char>>, Seq<char>>) -> (bool, Seq<char>) {
    match enumerated {
        Err(e) => (false, "Failed to enumerate monitors: "@ + e),
        Ok(descriptions) => if descriptions.len() == 0 {
            (false, no_monitors_text())
        } else {
            (true, "Dxva2: OK\n\nDetected monitors:\n"@ + monitor_list(descriptions))
        },
    }
}

/// The diagnosis of the mechanism, from what enumerating the monitors came
/// to. It always is a report: a failure is reported, not returned.
pub fn doctor_report(enumerated: Result<Vec<String>, String>) -> (r: DoctorReport)
    ensures
        (r.ok, r.message@) == doctor_text(
            match enumerated {
                Ok(descriptions) => Ok(texts(descriptions@)),
                Err(e) => Err(e@),
            },
        ),
{
    match enumerated {
        Err(e) => {
            let mut message = String::from_str("Failed to enumerate monitors: ");
            message.append(e.as_str());
            DoctorReport { ok: false, message }
        },
        Ok(descriptions) => {
            if descriptions.len() == 0 {
                DoctorReport {
                    ok: false,
                    message: String::from_str("No physical monitors found via Dxva2."),
                }
            } else {
                let mut message = String::from_str("Dxva2: OK\n\nDetected monitors:\n");
                let list = format_monitor_list(&descriptions);
                message.append(list.as_str());
                DoctorReport { ok: true, message }
            }
        },
    }
}

} // verus!
