//! The configuration store kept by an external configuration tool.
//!
//! The tool is driven through its command line: one call per field to
//! store, one call to query. This module builds those calls, judges their
//! outcomes and reads the inline table that a query prints, such as
//! `{ cmd = "make clean", dir = "build" }`.

use crate::error::{prefixed, CleanError, CleanErrorView};
use crate::executor::unit_result;
use crate::process::{ProcessOutcome, ToolCall, ToolCallView};
use crate::text::{
    chars_of, cut, find_char, lemma_index_of_bounds, range_is, split_once, strip_pair, texts,
    trim, trim_bounds,
};
use vstd::prelude::*;
use vstd::string::*;

verus! {

/// What the store holds for one feature: where the command was run,
/// relative to the project root, and the command line itself.
#[derive(Debug, Clone, PartialEq, Eq)]
pub struct CleanConfig {
    pub dir: Option<String>,
    pub command: Option<String>,
}

/// The mathematical value of a [`CleanConfig`].
pub struct CleanConfigView {
    pub dir: Option<Seq<char>>,
    pub command: Option<Seq<char>>,
}

impl View for CleanConfig {
    type V = CleanConfigView;

    open spec fn view(&self) -> CleanConfigView {
        CleanConfigView {
            dir: match self.dir {
                Some(d) => Some(d@),
                None => None,
            },
            command: match self.command {
                Some(c) => Some(c@),
                None => None,
            },
        }
    }
}

impl Default for CleanConfig {
    fn default() -> (r: CleanConfig)
        ensures
            r@ == empty_config(),
    {
        CleanConfig { dir: None, command: None }
    }
}

/// The configuration with no field set.
pub open spec fn empty_config() -> CleanConfigView {
    CleanConfigView { dir: None, command: None }
}

/// The value of a result that holds a configuration.
pub open spec fn config_result(r: Result<CleanConfig, CleanError>) -> Result<
    CleanConfigView,
    CleanErrorView,
> {
    match r {
        Ok(c) => Ok(c@),
        Err(e) => Err(e@),
    }
}

/// The field of the stored record that one call of the tool sets.
#[derive(Debug, Clone, Copy, PartialEq, Eq)]
pub enum SaveField {
    Dir,
    Command,
}

impl SaveField {
    /// The key under which the tool stores this field.
    pub open spec fn key(self) -> Seq<char> {
        match self {
            SaveField::Dir => "clean.dir"@,
            SaveField::Command => "clean.cmd"@,
        }
    }

    /// How a failure to store this field opens its message.
    pub open spec fn failure_prefix(self) -> Seq<char> {
        match self {
            SaveField::Dir => "Failed to save clean.dir: "@,
            SaveField::Command => "Failed to save clean command: "@,
        }
    }
}

/// `s` without one pair of surrounding quotes, double or single. Quotes
/// inside are left as they are.
pub open spec fn unquote(s: Seq<char>) -> Seq<char> {
    if s.len() >= 2 && ((s[0] == '"' && s.last() == '"') || (s[0] == '\'' && s.last() == '\'')) {
        s.subrange(1, s.len() - 1)
    } else {
        s
    }
}

/// The record after one `key = value` entry has been read. The entry is
/// cut at its first `=`; an entry without `=` or with an unknown key
/// changes nothing.
pub open spec fn apply_entry(config: CleanConfigView, entry: Seq<char>) -> CleanConfigView {
    match split_once(trim(entry), '=') {
        None => config,
        Some((k, v)) => {
            let value = unquote(trim(v));
            if trim(k) == "cmd"@ {
                CleanConfigView { dir: config.dir, command: Some(value) }
            } else if trim(k) == "dir"@ {
                CleanConfigView { dir: Some(value), command: config.command }
            } else {
                config
            }
        },
    }
}

/// The record after all of `entries` have been read in order, so that a
/// later entry for a key replaces an earlier one.
pub open spec fn apply_entries(config: CleanConfigView, entries: Seq<Seq<char>>) -> CleanConfigView
    decreases entries.len(),
{
    if entries.len() == 0 {
        config
    } else {
        apply_entries(apply_entry(config, entries[0]), entries.drop_first())
    }
}

/// The text between the braces of an inline table: `s` trimmed, without
/// one enclosing pair `{` .. `}` if it has one, and trimmed again.
pub open spec fn table_body(s: Seq<char>) -> Seq<char> {
    trim(strip_pair(trim(s), '{', '}'))
}

/// Where a scan of a table body stands: inside a quoted stretch that was
/// opened by `quote`, or outside of any; and how many braces are open.
pub struct ScanState {
    pub quote: Option<char>,
    pub depth: nat,
}

/// The state in which a scan begins and in which it cuts: outside of any
/// quoted stretch, with no brace open.
pub open spec fn scan_start() -> ScanState {
    ScanState { quote: None, depth: 0 }
}

/// The state after `c` has been scanned.
///
/// A quote character, double or single, opens a quoted stretch that runs
/// to the next occurrence of the same character; everything in between is
/// ordinary text, and a backslash escapes nothing. Outside of quoted
/// stretches `{` opens a brace and `}` closes one, if one is open.
pub open spec fn scan_step(state: ScanState, c: char) -> ScanState {
    match state.quote {
        Some(q) => if c == q {
            ScanState { quote: None, depth: state.depth }
        } else {
            state
        },
        None => if c == '"' || c == '\'' {
            ScanState { quote: Some(c), depth: state.depth }
        } else if c == '{' {
            ScanState { quote: None, depth: state.depth + 1 }
        } else if c == '}' && state.depth > 0 {
            ScanState { quote: None, depth: (state.depth - 1) as nat }
        } else {
            state
        },
    }
}

/// Whether `c`, met in `state`, is a comma at the top level: outside of
/// any quoted stretch and of any braces.
pub open spec fn is_top_comma(state: ScanState, c: char) -> bool {
    c == ',' && state.quote is None && state.depth == 0
}

/// The position of the first top-level comma in `s`, scanned from `state`,
/// or `s.len()` when `s` holds none.
pub open spec fn top_comma(s: Seq<char>, state: ScanState) -> int
    decreases s.len(),
{
    if s.len() == 0 {
        0
    } else if is_top_comma(state, s[0]) {
        0
    } else {
        1 + top_comma(s.drop_first(), scan_step(state, s[0]))
    }
}

/// The pieces of `s` between its top-level commas. There is always at
/// least one piece.
pub open spec fn split_top(s: Seq<char>) -> Seq<Seq<char>>
    decreases s.len(),
{
    let i = top_comma(s, scan_start());
    if 0 <= i < s.len() {
        seq![s.take(i)] + split_top(s.skip(i + 1))
    } else {
        seq![s]
    }
}

/// The record that the inline table `s` spells: its body is cut at its
/// top-level commas and the pieces are read as entries.
pub open spec fn parse_clean(s: Seq<char>) -> CleanConfigView {
    apply_entries(empty_config(), split_top(table_body(s)))
}

/// The state in which a scan of `s` from `state` ends.
pub open spec fn scan_end(s: Seq<char>, state: ScanState) -> ScanState
    decreases s.len(),
{
    if s.len() == 0 {
        state
    } else {
        scan_end(s.drop_first(), scan_step(state, s[0]))
    }
}

/// Whether a scan of `s` from `state` meets no top-level comma.
pub open spec fn comma_free(s: Seq<char>, state: ScanState) -> bool
    decreases s.len(),
{
    s.len() == 0 || (!is_top_comma(state, s[0]) && comma_free(
        s.drop_first(),
        scan_step(state, s[0]),
    ))
}

/// Whether `c` is neither a comma, nor a quote character, nor a brace.
pub open spec fn is_plain(c: char) -> bool {
    c != ',' && c != '"' && c != '\'' && c != '{' && c != '}'
}

/// The first top-level comma lies within the text.
pub proof fn lemma_top_comma_bounds(s: Seq<char>, state: ScanState)
    ensures
        0 <= top_comma(s, state) <= s.len(),
    decreases s.len(),
{
    if s.len() > 0 && !is_top_comma(state, s[0]) {
        lemma_top_comma_bounds(s.drop_first(), scan_step(state, s[0]));
    }
}

/// A scan goes through a text without a top-level comma and carries on
/// behind it in the state in which that text ends.
pub proof fn lemma_scan_concat(a: Seq<char>, b: Seq<char>, state: ScanState)
    requires
        comma_free(a, state),
    ensures
        top_comma(a + b, state) == a.len() + top_comma(b, scan_end(a, state)),
        comma_free(a + b, state) == comma_free(b, scan_end(a, state)),
        scan_end(a + b, state) == scan_end(b, scan_end(a, state)),
    decreases a.len(),
{
    if a.len() == 0 {
        assert(a + b =~= b);
    } else {
        assert((a + b).drop_first() =~= a.drop_first() + b);
        assert((a + b)[0] == a[0]);
        lemma_scan_concat(a.drop_first(), b, scan_step(state, a[0]));
    }
}

/// Outside of quoted stretches, plain text holds no top-level comma and
/// leaves the state as it is.
pub proof fn lemma_scan_plain(s: Seq<char>, state: ScanState)
    requires
        state.quote is None,
        forall|k: int| 0 <= k < s.len() ==> is_plain(#[trigger] s[k]),
    ensures
        comma_free(s, state),
        scan_end(s, state) == state,
    decreases s.len(),
{
    if s.len() > 0 {
        assert(is_plain(s[0]));
        assert forall|k: int| 0 <= k < s.drop_first().len() implies is_plain(
            #[trigger] s.drop_first()[k],
        ) by {
            assert(s.drop_first()[k] == s[k + 1]);
        }
        lemma_scan_plain(s.drop_first(), state);
    }
}

/// Inside a quoted stretch, text without the quote character that opened
/// it holds no top-level comma and leaves the state as it is.
pub proof fn lemma_scan_quoted(s: Seq<char>, state: ScanState)
    requires
        state.quote matches Some(q) && free_of(s, q),
    ensures
        comma_free(s, state),
        scan_end(s, state) == state,
    decreases s.len(),
{
    if s.len() > 0 {
        let q = state.quote->0;
        assert(s[0] != q);
        assert forall|k: int| 0 <= k < s.drop_first().len() implies s.drop_first()[k] != q by {
            assert(s.drop_first()[k] == s[k + 1]);
        }
        lemma_scan_quoted(s.drop_first(), state);
    }
}

/// The arguments that select a feature, if one is given.
pub open spec fn feature_args(feature: Option<Seq<char>>) -> Seq<Seq<char>> {
    match feature {
        Some(f) => seq!["--feature"@, f],
        None => Seq::empty(),
    }
}

/// The arguments of the call that stores `value` under `key`.
pub open spec fn set_args(feature: Option<Seq<char>>, key: Seq<char>, value: Seq<char>) -> Seq<
    Seq<char>,
> {
    seq!["config"@, "--make"@] + feature_args(feature) + seq!["--set"@, key, value]
}

/// The arguments of the call that queries `key`.
pub open spec fn list_args(feature: Option<Seq<char>>, key: Seq<char>) -> Seq<Seq<char>> {
    seq!["config"@, "--make"@] + feature_args(feature) + seq!["--list"@, key]
}

/// The call that stores one field of the record.
pub open spec fn save_call_of(
    field: SaveField,
    tool: Seq<char>,
    dir: Seq<char>,
    command: Seq<char>,
    feature: Option<Seq<char>>,
) -> ToolCallView {
    ToolCallView {
        program: tool,
        args: set_args(
            feature,
            field.key(),
            match field {
                SaveField::Dir => dir,
                SaveField::Command => command,
            },
        ),
    }
}

/// What the outcome of storing one field means: success only for exit code
/// 0; otherwise a failure that names the field and carries the tool's
/// error output, or says that the tool could not be started.
pub open spec fn save_verdict(field: SaveField, outcome: ProcessOutcome) -> Result<
    (),
    CleanErrorView,
> {
    match outcome {
        ProcessOutcome::SpawnFailed(reason) => Err(
            CleanErrorView::ConfigSaveFailed("Failed to execute c2rust-config: "@ + reason@),
        ),
        ProcessOutcome::Exited { code, stdout, stderr } => if code == Some(0i32) {
            Ok(())
        } else {
            Err(CleanErrorView::ConfigSaveFailed(field.failure_prefix() + stderr@))
        },
    }
}

/// What the outcome of a query means: a tool that cannot be started is a
/// failure; a tool that exits with another code than 0 has no record, which
/// is no failure; otherwise the record is what the output spells.
pub open spec fn read_verdict(outcome: ProcessOutcome) -> Result<CleanConfigView, CleanErrorView> {
    match outcome {
        ProcessOutcome::SpawnFailed(reason) => Err(
            CleanErrorView::ConfigReadFailed("Failed to execute c2rust-config: "@ + reason@),
        ),
        ProcessOutcome::Exited { code, stdout, stderr } => if code == Some(0i32) && trim(
            stdout@,
        ).len() > 0 {
            Ok(parse_clean(trim(stdout@)))
        } else {
            Ok(empty_config())
        },
    }
}

/// One entry of an inline table: `key = "value"`, in either quote style.
pub open spec fn entry_text(key: Seq<char>, value: Seq<char>, quote: char) -> Seq<char> {
    key + seq![' ', '=', ' '] + seq![quote] + value + seq![quote]
}

/// The inline table that spells a record with both fields set:
/// `{ cmd = "COMMAND", dir = "DIR" }`, in either quote style.
pub open spec fn table_text(command: Seq<char>, dir: Seq<char>, quote: char) -> Seq<char> {
    seq!['{', ' '] + entry_text("cmd"@, command, quote) + seq![',', ' '] + entry_text(
        "dir"@,
        dir,
        quote,
    ) + seq![' ', '}']
}

/// Whether `c` occurs nowhere in `s`.
pub open spec fn free_of(s: Seq<char>, c: char) -> bool {
    forall|k: int| 0 <= k < s.len() ==> s[k] != c
}

/// Reading one quoted entry, with white space in front of it or not, gives
/// its key and its value as they were written: the entry is cut at the
/// `=` that follows the key, even when the value holds more of them.
proof fn lemma_entry_parts(pad: Seq<char>, key: Seq<char>, value: Seq<char>, quote: char)
    requires
        quote == '"' || quote == '\'',
        key.len() > 0,
        forall|k: int| 0 <= k < key.len() ==> key[k] != '=' && !crate::text::is_space(key[k]),
        forall|k: int| 0 <= k < pad.len() ==> crate::text::is_space(pad[k]),
    ensures
        split_once(trim(pad + entry_text(key, value, quote)), '=') matches Some((k, v)) && trim(k)
            == key && unquote(trim(v)) == value,
{
    let entry = entry_text(key, value, quote);
    let quoted = seq![quote] + value + seq![quote];
    assert(entry =~= key + seq![' ', '=', ' '] + quoted);
    assert(entry[0] == key[0]);
    assert(entry.last() == quote);
    crate::text::lemma_trim_padded(pad, entry, Seq::empty());
    assert(pad + entry + Seq::<char>::empty() =~= pad + entry);
    assert(trim(pad + entry) == entry);
    let at = key.len() as int + 1;
    assert forall|k: int| 0 <= k < at implies entry[k] != '=' by {
        if k < key.len() {
            assert(entry[k] == key[k]);
        }
    }
    assert(entry[at] == '=');
    crate::text::lemma_index_of_unique(entry, '=', at);
    let k = entry.take(at);
    let v = entry.skip(at + 1);
    assert(k =~= key + seq![' ']);
    assert(v =~= seq![' '] + quoted);
    crate::text::lemma_trim_padded(Seq::empty(), key, seq![' ']);
    assert(Seq::<char>::empty() + key + seq![' '] =~= k);
    assert(quoted[0] == quote);
    assert(quoted.last() == quote);
    crate::text::lemma_trim_padded(seq![' '], quoted, Seq::empty());
    assert(seq![' '] + quoted + Seq::<char>::empty() =~= v);
    assert(quoted.subrange(1, quoted.len() - 1) =~= value);
}

/// A single character moves the state by one step, and is free of
/// top-level commas unless it is one.
proof fn lemma_scan_one(c: char, state: ScanState)
    ensures
        comma_free(seq![c], state) == !is_top_comma(state, c),
        scan_end(seq![c], state) == scan_step(state, c),
{
    reveal_with_fuel(comma_free, 2);
    reveal_with_fuel(scan_end, 2);
    let s = seq![c];
    assert(s[0] == c);
    assert(s.drop_first() =~= Seq::<char>::empty());
}

/// A quoted entry with a plain key, scanned from the start state, holds no
/// top-level comma and ends in the start state, as long as the value does
/// not hold the quote character that encloses it.
proof fn lemma_scan_entry(key: Seq<char>, value: Seq<char>, quote: char)
    requires
        quote == '"' || quote == '\'',
        forall|k: int| 0 <= k < key.len() ==> is_plain(#[trigger] key[k]),
        free_of(value, quote),
    ensures
        comma_free(entry_text(key, value, quote), scan_start()),
        scan_end(entry_text(key, value, quote), scan_start()) == scan_start(),
{
    let start = scan_start();
    let inside = ScanState { quote: Some(quote), depth: 0 };
    let head = key + seq![' ', '=', ' '];
    let mark = seq![quote];
    let tail = value + mark;
    let quoted = mark + tail;
    let entry = entry_text(key, value, quote);
    assert(entry =~= head + quoted);
    assert forall|k: int| 0 <= k < head.len() implies is_plain(#[trigger] head[k]) by {
        if k < key.len() {
            assert(head[k] == key[k]);
        }
    }
    lemma_scan_plain(head, start);
    lemma_scan_concat(head, quoted, start);

    lemma_scan_one(quote, start);
    assert(scan_step(start, quote) == inside);
    lemma_scan_concat(mark, tail, start);

    lemma_scan_quoted(value, inside);
    lemma_scan_concat(value, mark, inside);
    lemma_scan_one(quote, inside);
    assert(scan_step(inside, quote) == start);
}

/// Reading gives back what was written: the inline table that spells a
/// command and a directory, in either quote style, reads as exactly that
/// command and that directory. The values may hold commas, `=`, braces,
/// white space and the other quote character; neither may hold the quote
/// character that encloses it, at which its quoted stretch would end.
pub proof fn lemma_parse_reads_back(command: Seq<char>, dir: Seq<char>, quote: char)
    requires
        quote == '"' || quote == '\'',
        free_of(command, quote),
        free_of(dir, quote),
    ensures
        parse_clean(table_text(command, dir, quote)) == (CleanConfigView {
            dir: Some(dir),
            command: Some(command),
        }),
{
    reveal_strlit("cmd");
    reveal_strlit("dir");
    let start = scan_start();
    let first = entry_text("cmd"@, command, quote);
    let second = entry_text("dir"@, dir, quote);
    let body = first + seq![',', ' '] + second;
    let table = table_text(command, dir, quote);
    assert(table =~= seq!['{', ' '] + body + seq![' ', '}']);

    assert(table[0] == '{');
    assert(table.last() == '}');
    crate::text::lemma_trim_fixed(table);
    let inner = strip_pair(table, '{', '}');
    assert(inner =~= seq![' '] + body + seq![' ']);
    assert(body[0] == 'c');
    assert(body.last() == quote);
    crate::text::lemma_trim_padded(seq![' '], body, seq![' ']);
    assert(table_body(table) == body);

    let rest = seq![' '] + second;
    let behind = seq![','] + rest;
    assert(body =~= first + behind);
    lemma_scan_entry("cmd"@, command, quote);
    lemma_scan_entry("dir"@, dir, quote);
    lemma_scan_concat(first, behind, start);
    assert(is_top_comma(start, behind[0]));
    assert(top_comma(behind, start) == 0);
    assert(top_comma(body, start) == first.len());
    assert(body.take(first.len() as int) =~= first);
    assert(body.skip(first.len() as int + 1) =~= rest);

    lemma_scan_plain(seq![' '], start);
    lemma_scan_concat(seq![' '], second, start);
    assert(comma_free(rest, start));
    lemma_scan_concat(rest, Seq::empty(), start);
    assert(rest + Seq::<char>::empty() =~= rest);
    assert(top_comma(rest, start) == rest.len());
    assert(split_top(rest) =~= seq![rest]);
    let entries = seq![first, rest];
    assert(split_top(body) =~= entries);

    lemma_entry_parts(Seq::empty(), "cmd"@, command, quote);
    assert(Seq::<char>::empty() + first =~= first);
    lemma_entry_parts(seq![' '], "dir"@, dir, quote);
    let after_first = apply_entry(empty_config(), first);
    assert(after_first == (CleanConfigView { dir: None, command: Some(command) }));
    assert("dir"@[0] != "cmd"@[0]);
    let after_second = apply_entry(after_first, rest);
    assert(after_second == (CleanConfigView { dir: Some(dir), command: Some(command) }));
    assert(entries.drop_first() =~= seq![rest]);
    assert(seq![rest].drop_first() =~= Seq::<Seq<char>>::empty());
    assert(apply_entries(after_second, Seq::empty()) == after_second);
    assert(apply_entries(after_first, seq![rest]) == after_second);
    assert(apply_entries(empty_config(), entries) == after_second);
}

/// The option views of an optional string.
pub open spec fn option_text(s: Option<&str>) -> Option<Seq<char>> {
    match s {
        Some(t) => Some(t@),
        None => None,
    }
}

/// The program to run as the configuration tool: the configured one, or
/// `c2rust-config` to be found on the search path.
pub fn get_c2rust_config_path(configured: Option<&str>) -> (r: String)
    ensures
        r@ == match configured {
            Some(p) => p@,
            None => "c2rust-config"@,
        },
{
    match configured {
        Some(p) => String::from_str(p),
        None => String::from_str("c2rust-config"),
    }
}

/// The call that probes whether the tool is there: `<tool> --help`.
pub fn probe_call(tool: &str) -> (r: ToolCall)
    ensures
        r@ == (ToolCallView { program: tool@, args: seq!["--help"@] }),
{
    let mut args: Vec<String> = Vec::new();
    args.push(String::from_str("--help"));
    assert(texts(args@) =~= seq!["--help"@]);
    ToolCall { program: String::from_str(tool), args: args }
}

/// Judges the probe: the tool is there only if the probe ran and exited
/// with code 0.
pub fn check_c2rust_config_exists(outcome: &ProcessOutcome) -> (r: Result<(), CleanError>)
    ensures
        unit_result(r) == if outcome.succeeded() {
            Ok::<(), CleanErrorView>(())
        } else {
            Err::<(), CleanErrorView>(CleanErrorView::ConfigToolNotFound)
        },
{
    if outcome.is_success() {
        Ok(())
    } else {
        Err(CleanError::ConfigToolNotFound)
    }
}

fn call_head(feature: Option<&str>) -> (r: Vec<String>)
    ensures
        texts(r@) == seq!["config"@, "--make"@] + feature_args(option_text(feature)),
{
    let mut args: Vec<String> = Vec::new();
    args.push(String::from_str("config"));
    args.push(String::from_str("--make"));
    match feature {
        Some(f) => {
            args.push(String::from_str("--feature"));
            args.push(String::from_str(f));
        },
        None => {},
    }
    assert(texts(args@) =~= seq!["config"@, "--make"@] + feature_args(option_text(feature)));
    args
}

/// The call that stores `value` under `key`:
/// `<tool> config --make [--feature NAME] --set KEY VALUE`.
pub fn set_call(tool: &str, feature: Option<&str>, key: &str, value: &str) -> (r: ToolCall)
    ensures
        r@ == (ToolCallView {
            program: tool@,
            args: set_args(option_text(feature), key@, value@),
        }),
{
    let mut args = call_head(feature);
    let ghost head = texts(args@);
    args.push(String::from_str("--set"));
    args.push(String::from_str(key));
    args.push(String::from_str(value));
    assert(texts(args@) =~= head + seq!["--set"@, key@, value@]);
    ToolCall { program: String::from_str(tool), args: args }
}

/// The call that queries `key`:
/// `<tool> config --make [--feature NAME] --list KEY`.
pub fn list_call(tool: &str, feature: Option<&str>, key: &str) -> (r: ToolCall)
    ensures
        r@ == (ToolCallView { program: tool@, args: list_args(option_text(feature), key@) }),
{
    let mut args = call_head(feature);
    let ghost head = texts(args@);
    args.push(String::from_str("--list"));
    args.push(String::from_str(key));
    assert(texts(args@) =~= head + seq!["--list"@, key@]);
    ToolCall { program: String::from_str(tool), args: args }
}

/// The call that stores one field of the record.
pub fn save_call(field: SaveField, tool: &str, dir: &str, command: &str, feature: Option<&str>) -> (r:
    ToolCall)
    ensures
        r@ == save_call_of(field, tool@, dir@, command@, option_text(feature)),
{
    match field {
        SaveField::Dir => set_call(tool, feature, "clean.dir", dir),
        SaveField::Command => set_call(tool, feature, "clean.cmd", command),
    }
}

/// The calls that store a record, in the order in which they are to be
/// made: the directory first, then the command. The caller makes each call
/// and hands its outcome to [`save_field_result`]; the first failure ends
/// the saving.
pub fn save_config(tool: &str, dir: &str, command: &str, feature: Option<&str>) -> (r: Vec<
    ToolCall,
>)
    ensures
        r@.len() == 2,
        r@[0]@ == save_call_of(SaveField::Dir, tool@, dir@, command@, option_text(feature)),
        r@[1]@ == save_call_of(SaveField::Command, tool@, dir@, command@, option_text(feature)),
{
    let mut calls: Vec<ToolCall> = Vec::new();
    calls.push(save_call(SaveField::Dir, tool, dir, command, feature));
    calls.push(save_call(SaveField::Command, tool, dir, command, feature));
    calls
}

/// Judges the outcome of storing one field.
pub fn save_field_result(field: SaveField, outcome: &ProcessOutcome) -> (r: Result<
    (),
    CleanError,
>)
    ensures
        unit_result(r) == save_verdict(field, *outcome),
{
    match outcome {
        ProcessOutcome::SpawnFailed(reason) => Err(
            CleanError::ConfigSaveFailed(
                prefixed("Failed to execute c2rust-config: ", reason.as_str()),
            ),
        ),
        ProcessOutcome::Exited { code, stdout, stderr } => {
            if outcome.is_success() {
                Ok(())
            } else {
                let message = match field {
                    SaveField::Dir => prefixed("Failed to save clean.dir: ", stderr.as_str()),
                    SaveField::Command => prefixed(
                        "Failed to save clean command: ",
                        stderr.as_str(),
                    ),
                };
                Err(CleanError::ConfigSaveFailed(message))
            }
        },
    }
}

/// The call that queries the whole record of a feature.
pub fn read_call(tool: &str, feature: Option<&str>) -> (r: ToolCall)
    ensures
        r@ == (ToolCallView { program: tool@, args: list_args(option_text(feature), "clean"@) }),
{
    list_call(tool, feature, "clean")
}

/// Reads the record from the outcome of a query.
pub fn read_config(outcome: &ProcessOutcome) -> (r: Result<CleanConfig, CleanError>)
    ensures
        config_result(r) == read_verdict(*outcome),
{
    match outcome {
        ProcessOutcome::SpawnFailed(reason) => Err(
            CleanError::ConfigReadFailed(
                prefixed("Failed to execute c2rust-config: ", reason.as_str()),
            ),
        ),
        ProcessOutcome::Exited { code, stdout, stderr } => {
            if !outcome.is_success() {
                return Ok(CleanConfig::default());
            }
            let v = chars_of(stdout.as_str());
            let bounds = trim_bounds(&v, 0, v.len());
            assert(v@.subrange(0, v@.len() as int) =~= v@);
            if bounds.0 == bounds.1 {
                return Ok(CleanConfig::default());
            }
            let trimmed = cut(stdout.as_str(), bounds.0, bounds.1);
            parse_clean_config(trimmed.as_str())
        },
    }
}

fn apply_part(config: CleanConfig, s: &str, v: &Vec<char>, lo: usize, hi: usize) -> (r:
    CleanConfig)
    requires
        v@ == s@,
        lo <= hi <= v@.len(),
    ensures
        r@ == apply_entry(config@, v@.subrange(lo as int, hi as int)),
{
    let (p, q) = trim_bounds(v, lo, hi);
    let ghost entry = v@.subrange(p as int, q as int);
    let eq: usize = find_char(v, p, q, '=');
    proof {
        lemma_index_of_bounds(entry, '=');
    }
    if eq >= q {
        return config;
    }
    assert(entry.take(eq - p) =~= v@.subrange(p as int, eq as int));
    assert(entry.skip(eq - p + 1) =~= v@.subrange(eq as int + 1, q as int));
    let (kp, kq) = trim_bounds(v, p, eq);
    let (vp, vq) = trim_bounds(v, eq + 1, q);
    let ghost raw = v@.subrange(vp as int, vq as int);
    let quoted: bool = vq - vp >= 2 && ((v[vp] == '"' && v[vq - 1] == '"') || (v[vp] == '\''
        && v[vq - 1] == '\''));
    let value = if quoted {
        assert(raw.subrange(1, raw.len() - 1) =~= v@.subrange(vp as int + 1, vq as int - 1));
        cut(s, vp + 1, vq - 1)
    } else {
        cut(s, vp, vq)
    };
    assert(value@ == unquote(raw));
    if range_is(v, kp, kq, "cmd") {
        CleanConfig { dir: config.dir, command: Some(value) }
    } else if range_is(v, kp, kq, "dir") {
        CleanConfig { dir: Some(value), command: config.command }
    } else {
        config
    }
}

/// The first position in `lo .. hi` at which `v` holds a top-level comma,
/// or `hi`.
fn find_top_comma(v: &Vec<char>, lo: usize, hi: usize) -> (r: usize)
    requires
        lo <= hi <= v@.len(),
    ensures
        lo <= r <= hi,
        r - lo == top_comma(v@.subrange(lo as int, hi as int), scan_start()),
{
    let mut i: usize = lo;
    let mut quote: Option<char> = None;
    let mut depth: usize = 0;
    while i < hi
        invariant
            lo <= i <= hi <= v@.len(),
            depth <= i - lo,
            top_comma(v@.subrange(lo as int, hi as int), scan_start()) == (i - lo) + top_comma(
                v@.subrange(i as int, hi as int),
                ScanState { quote: quote, depth: depth as nat },
            ),
        decreases hi - i,
    {
        let c: char = v[i];
        proof {
            let rest = v@.subrange(i as int, hi as int);
            assert(rest[0] == c);
            assert(rest.drop_first() =~= v@.subrange(i as int + 1, hi as int));
        }
        match quote {
            Some(q) => {
                if c == q {
                    quote = None;
                }
            },
            None => {
                if c == ',' && depth == 0 {
                    return i;
                }
                if c == '"' || c == '\'' {
                    quote = Some(c);
                } else if c == '{' {
                    depth = depth + 1;
                } else if c == '}' && depth > 0 {
                    depth = depth - 1;
                }
            },
        }
        i = i + 1;
    }
    i
}

/// Reads the inline table that a query of the whole record prints.
///
/// One enclosing pair of braces is dropped and the rest is cut at its
/// top-level commas: those outside of quoted values and of nested braces.
/// Each piece is cut at its first `=` into a key and a value. Keys and
/// values are trimmed and a value loses one pair of surrounding quotes.
/// `cmd` sets the command and `dir` the directory; other keys are skipped.
/// Reading never fails.
pub fn parse_clean_config(s: &str) -> (r: Result<CleanConfig, CleanError>)
    ensures
        config_result(r) == Ok::<CleanConfigView, CleanErrorView>(parse_clean(s@)),
{
    let v = chars_of(s);
    let (a, b) = trim_bounds(&v, 0, v.len());
    assert(v@.subrange(0, v@.len() as int) =~= v@);
    let ghost outer = v@.subrange(a as int, b as int);
    let braced: bool = b - a >= 2 && v[a] == '{' && v[b - 1] == '}';
    let (a1, b1) = if braced {
        assert(outer.subrange(1, outer.len() - 1) =~= v@.subrange(a as int + 1, b as int - 1));
        (a + 1, b - 1)
    } else {
        (a, b)
    };
    assert(v@.subrange(a1 as int, b1 as int) == strip_pair(outer, '{', '}'));
    let (lo, hi) = trim_bounds(&v, a1, b1);
    let ghost body = v@.subrange(lo as int, hi as int);
    assert(body == table_body(s@));
    let mut config = CleanConfig { dir: None, command: None };
    let mut pos: usize = lo;
    loop
        invariant
            v@ == s@,
            lo <= pos <= hi <= v@.len(),
            apply_entries(config@, split_top(v@.subrange(pos as int, hi as int)))
                == parse_clean(s@),
        decreases hi - pos,
    {
        let ghost rest = v@.subrange(pos as int, hi as int);
        let at: usize = find_top_comma(&v, pos, hi);
        let ghost before = config@;
        config = apply_part(config, s, &v, pos, at);
        if at >= hi {
            proof {
                assert(rest.take(at - pos) =~= rest);
                assert(split_top(rest) =~= seq![rest]);
                assert(seq![rest].drop_first() =~= Seq::<Seq<char>>::empty());
                assert(apply_entries(before, seq![rest]) == apply_entries(
                    apply_entry(before, rest),
                    seq![rest].drop_first(),
                ));
            }
            return Ok(config);
        }
        proof {
            let first = rest.take(at - pos);
            let tail = split_top(rest.skip(at - pos + 1));
            assert(first =~= v@.subrange(pos as int, at as int));
            assert(rest.skip(at - pos + 1) =~= v@.subrange(at as int + 1, hi as int));
            assert((seq![first] + tail).drop_first() =~= tail);
            assert((seq![first] + tail)[0] == first);
        }
        pos = at + 1;
    }
}

/// `s` without one pair of surrounding quotes, double or single. Escaped
/// quotes inside are not interpreted.
pub fn remove_quotes(s: &str) -> (r: String)
    ensures
        r@ == unquote(s@),
{
    let v = chars_of(s);
    let n: usize = v.len();
    if n >= 2 && ((v[0] == '"' && v[n - 1] == '"') || (v[0] == '\'' && v[n - 1] == '\'')) {
        cut(s, 1, n - 1)
    } else {
        assert(s@.subrange(0, n as int) =~= s@);
        cut(s, 0, n)
    }
}

} // verus!
