//! Live progress for owner Telegram tasks: tool labels, the status message
//! that is edited in place, and the split of long replies into messages.

use vstd::prelude::*;
use vstd::string::*;
use crate::text::{
    CharClass, byte_len, bytes_len, cat2, cat3, char_width, chars_of, contains_text, decimal,
    decimal_u64, find, find_from, fit, fit_from, is_white_space, join, joined, last_before,
    last_index, lemma_bytes_len_add, lemma_find_from, lemma_fit, lemma_last_before, owned,
    replace_char, replaced, str_eq, string_of, upper,
};

verus! {

/// The greatest number of bytes in one Telegram message.
pub const TELEGRAM_MAX: usize = 4096;

/// How far back from a hard cut a friendlier break may lie, in bytes.
pub const LOOKBACK: usize = 200;

/// The text of the placeholder message.
pub open spec fn status_header() -> Seq<char> {
    "🤔 Working on it…"@
}

/// The text of the placeholder message.
pub fn status_header_text() -> (r: &'static str)
    ensures
        r@ == status_header(),
{
    "🤔 Working on it…"
}

// ---------------------------------------------------------------------------
// Tool labels
// ---------------------------------------------------------------------------

/// The label of a built-in tool.
pub open spec fn builtin_label(name: Seq<char>) -> Option<Seq<char>> {
    if name == "read"@ {
        Some("Read"@)
    } else if name == "list_directory"@ {
        Some("List"@)
    } else if name == "grep"@ {
        Some("Search files"@)
    } else if name == "write"@ {
        Some("Write"@)
    } else if name == "edit"@ {
        Some("Edit"@)
    } else if name == "shell_execute"@ {
        Some("Run"@)
    } else if name == "shell_spawn"@ {
        Some("Spawn"@)
    } else if name == "shell_kill"@ {
        Some("Stop"@)
    } else if name == "shell_logs"@ {
        Some("Logs"@)
    } else if name == "web_search"@ {
        Some("Search web"@)
    } else if name == "web_fetch"@ {
        Some("Fetch"@)
    } else if name == "memory_store"@ {
        Some("Save"@)
    } else if name == "memory_recall"@ {
        Some("Recall"@)
    } else if name == "calendar_list"@ {
        Some("Events"@)
    } else if name == "calendar_create"@ {
        Some("Create event"@)
    } else if name == "calendar_update"@ {
        Some("Update event"@)
    } else if name == "calendar_delete"@ {
        Some("Delete event"@)
    } else if name == "contacts_list"@ {
        Some("Contacts"@)
    } else if name == "contacts_search"@ {
        Some("Find contact"@)
    } else if name == "contacts_create"@ {
        Some("Add contact"@)
    } else if name == "contacts_update"@ {
        Some("Update contact"@)
    } else if name == "contacts_delete"@ {
        Some("Delete contact"@)
    } else if name == "delete_path"@ {
        Some("Delete"@)
    } else if name == "append_file"@ {
        Some("Append"@)
    } else if name == "create_dir"@ {
        Some("Create folder"@)
    } else if name == "move_path"@ {
        Some("Move"@)
    } else if name == "exists"@ {
        Some("Check"@)
    } else if name == "stat"@ {
        Some("Info"@)
    } else if name == "delegate_to_agent"@ {
        Some("Consult specialist"@)
    } else if name == "install_package"@ {
        Some("Install package"@)
    } else if name == "uninstall_package"@ {
        Some("Uninstall package"@)
    } else if name == "list_installed_packages"@ {
        Some("List packages"@)
    } else {
        None
    }
}

/// The built-in tool that an MCP tool's suffix stands for.
pub open spec fn suffix_alias(suffix: Seq<char>) -> Option<Seq<char>> {
    if suffix == "read_file"@ {
        Some("read"@)
    } else if suffix == "write_file"@ {
        Some("write"@)
    } else if suffix == "list_dir"@ {
        Some("list_directory"@)
    } else if suffix == "list_files"@ {
        Some("list_directory"@)
    } else if suffix == "search_files"@ {
        Some("grep"@)
    } else {
        None
    }
}

/// The label of a built-in tool, if `name` is one.
pub fn lookup_builtin(name: &str) -> (r: Option<&'static str>)
    ensures
        r.deep_view() == builtin_label(name@),
{
    if str_eq(name, "read") {
        Some("Read")
    } else if str_eq(name, "list_directory") {
        Some("List")
    } else if str_eq(name, "grep") {
        Some("Search files")
    } else if str_eq(name, "write") {
        Some("Write")
    } else if str_eq(name, "edit") {
        Some("Edit")
    } else if str_eq(name, "shell_execute") {
        Some("Run")
    } else if str_eq(name, "shell_spawn") {
        Some("Spawn")
    } else if str_eq(name, "shell_kill") {
        Some("Stop")
    } else if str_eq(name, "shell_logs") {
        Some("Logs")
    } else if str_eq(name, "web_search") {
        Some("Search web")
    } else if str_eq(name, "web_fetch") {
        Some("Fetch")
    } else if str_eq(name, "memory_store") {
        Some("Save")
    } else if str_eq(name, "memory_recall") {
        Some("Recall")
    } else if str_eq(name, "calendar_list") {
        Some("Events")
    } else if str_eq(name, "calendar_create") {
        Some("Create event")
    } else if str_eq(name, "calendar_update") {
        Some("Update event")
    } else if str_eq(name, "calendar_delete") {
        Some("Delete event")
    } else if str_eq(name, "contacts_list") {
        Some("Contacts")
    } else if str_eq(name, "contacts_search") {
        Some("Find contact")
    } else if str_eq(name, "contacts_create") {
        Some("Add contact")
    } else if str_eq(name, "contacts_update") {
        Some("Update contact")
    } else if str_eq(name, "contacts_delete") {
        Some("Delete contact")
    } else if str_eq(name, "delete_path") {
        Some("Delete")
    } else if str_eq(name, "append_file") {
        Some("Append")
    } else if str_eq(name, "create_dir") {
        Some("Create folder")
    } else if str_eq(name, "move_path") {
        Some("Move")
    } else if str_eq(name, "exists") {
        Some("Check")
    } else if str_eq(name, "stat") {
        Some("Info")
    } else if str_eq(name, "delegate_to_agent") {
        Some("Consult specialist")
    } else if str_eq(name, "install_package") {
        Some("Install package")
    } else if str_eq(name, "uninstall_package") {
        Some("Uninstall package")
    } else if str_eq(name, "list_installed_packages") {
        Some("List packages")
    } else {
        None
    }
}

/// The built-in tool that an MCP tool's suffix stands for, if there is one.
pub fn lookup_alias(suffix: &str) -> (r: Option<&'static str>)
    ensures
        r.deep_view() == suffix_alias(suffix@),
{
    if str_eq(suffix, "read_file") {
        Some("read")
    } else if str_eq(suffix, "write_file") {
        Some("write")
    } else if str_eq(suffix, "list_dir") {
        Some("list_directory")
    } else if str_eq(suffix, "list_files") {
        Some("list_directory")
    } else if str_eq(suffix, "search_files") {
        Some("grep")
    } else {
        None
    }
}

/// The upper-case mapping of a character, as `char::to_uppercase` yields it.
pub uninterp spec fn char_uppercase(c: char) -> Seq<char>;

/// `c` in upper case, which may take more than one character.
pub open spec fn upper_of(c: char) -> Seq<char> {
    if c as u32 <= 0x7f {
        seq![upper(c)]
    } else {
        char_uppercase(c)
    }
}

/// `char::to_uppercase`, its characters collected into a string. On an ASCII
/// character the result is the ASCII upper case; on another one, where it
/// follows the Unicode tables, the contract only names it.
#[verifier::external_body]
fn uppercase_of(c: char) -> (r: String)
    ensures
        r@ == if c as u32 <= 0x7f {
            seq![upper(c)]
        } else {
            char_uppercase(c)
        },
{
    c.to_uppercase().collect::<String>()
}

/// `raw` with spaces for underscores and its first character replaced by
/// `first`.
pub open spec fn humanized_with(raw: Seq<char>, first: Seq<char>) -> Seq<char> {
    if raw.len() == 0 {
        Seq::empty()
    } else {
        first + replaced(raw, '_', ' ').subrange(1, raw.len() as int)
    }
}

/// `raw` with spaces for underscores and its first character in upper case.
pub open spec fn humanized(raw: Seq<char>) -> Seq<char> {
    humanized_with(raw, upper_of(replaced(raw, '_', ' ')[0]))
}

/// `raw` with spaces for underscores and its first character replaced by
/// `first`.
pub fn humanize_with(raw: &str, first: &str) -> (r: String)
    ensures
        r@ == humanized_with(raw@, first@),
{
    if raw.is_empty() {
        return String::new();
    }
    let spaced = replace_char(raw, '_', ' ');
    let v = chars_of(spaced.as_str());
    let rest = string_of(&v, 1, v.len());
    cat2(first, rest.as_str())
}

/// `some_tool_name` becomes `Some tool name`.
pub fn humanize(raw: &str) -> (r: String)
    ensures
        r@ == humanized(raw@),
{
    if raw.is_empty() {
        return String::new();
    }
    let spaced = replace_char(raw, '_', ' ');
    let v = chars_of(spaced.as_str());
    let first = uppercase_of(v[0]);
    humanize_with(raw, first.as_str())
}

/// The label shown for an MCP tool's suffix.
pub open spec fn suffix_label(suffix: Seq<char>) -> Seq<char> {
    match builtin_label(suffix) {
        Some(label) => label,
        None => match suffix_alias(suffix) {
            Some(target) => match builtin_label(target) {
                Some(label) => label,
                None => humanized(suffix),
            },
            None => humanized(suffix),
        },
    }
}

/// The label shown for a tool: its built-in label, the label of what follows
/// the first double underscore, or its name made readable.
pub open spec fn tool_label(raw: Seq<char>) -> Seq<char> {
    match builtin_label(raw) {
        Some(label) => label,
        None => {
            let i = find_from(raw, "__"@, 0);
            if i >= 0 {
                suffix_label(raw.subrange(i + 2, raw.len() as int))
            } else {
                humanized(raw)
            }
        },
    }
}

fn pretty_suffix_label(suffix: &str) -> (r: String)
    ensures
        r@ == suffix_label(suffix@),
{
    if let Some(label) = lookup_builtin(suffix) {
        return owned(label);
    }
    if let Some(target) = lookup_alias(suffix) {
        if let Some(label) = lookup_builtin(target) {
            return owned(label);
        }
    }
    humanize(suffix)
}

/// The friendly label of a raw tool name such as `files__list_dir`.
pub fn pretty_tool_label(raw: &str) -> (r: String)
    ensures
        r@ == tool_label(raw@),
{
    if let Some(label) = lookup_builtin(raw) {
        return owned(label);
    }
    let v = chars_of(raw);
    let sep = chars_of("__");
    proof {
        reveal_strlit("__");
    }
    match find(&v, &sep) {
        Some(idx) => {
            proof {
                assert(idx + 2 <= v.len());
            }
            let suffix = string_of(&v, idx + 2, v.len());
            pretty_suffix_label(suffix.as_str())
        },
        None => humanize(raw),
    }
}

// ---------------------------------------------------------------------------
// Splitting long replies
// ---------------------------------------------------------------------------

/// A break behind the character at `at` lies in the message that begins at
/// `start`, and close enough to the hard cut.
pub open spec fn is_friendly(s: Seq<char>, start: int, at: int, hard: int) -> bool {
    at >= start && bytes_len(s.subrange(at + 1, hard)) < LOOKBACK
}

/// Where the message that begins at `start` ends: after the last newline of
/// the byte budget where that lies within the lookback, else after the last
/// white space where that does, otherwise at the last character that fits.
pub open spec fn chunk_end(s: Seq<char>, start: int, max: int) -> int {
    let hard = fit_from(s, start, max);
    let newline = last_before(s, CharClass::Is('\n'), hard);
    let space = last_before(s, CharClass::WhiteSpace, hard);
    if hard >= s.len() {
        hard
    } else if is_friendly(s, start, newline, hard) {
        newline + 1
    } else if is_friendly(s, start, space, hard) {
        space + 1
    } else {
        hard
    }
}

/// The messages that `s[start..]` is cut into.
pub open spec fn chunks_from(s: Seq<char>, start: int, max: int) -> Seq<Seq<char>>
    decreases s.len() - start,
{
    let end = chunk_end(s, start, max);
    if start < 0 || start >= s.len() || end <= start || end > s.len() {
        Seq::empty()
    } else {
        seq![s.subrange(start, end)] + chunks_from(s, end, max)
    }
}

/// The messages that `s` is cut into.
pub open spec fn chunked(s: Seq<char>, max: int) -> Seq<Seq<char>> {
    if bytes_len(s) <= max {
        seq![s]
    } else {
        chunks_from(s, 0, max)
    }
}

/// A cut lies behind its start and within its budget.
proof fn lemma_chunk_end(s: Seq<char>, start: int, max: int)
    requires
        0 <= start <= s.len(),
        0 <= max,
    ensures
        start <= chunk_end(s, start, max) <= s.len(),
        chunk_end(s, start, max) <= fit_from(s, start, max),
        bytes_len(s.subrange(start, chunk_end(s, start, max))) <= max,
        max >= 4 && start < s.len() ==> chunk_end(s, start, max) > start,
{
    let hard = fit_from(s, start, max);
    let end = chunk_end(s, start, max);
    lemma_fit(s, start, max);
    lemma_last_before(s, CharClass::Is('\n'), hard);
    lemma_last_before(s, CharClass::WhiteSpace, hard);
    assert(s.subrange(start, hard) =~= s.subrange(start, end) + s.subrange(end, hard));
    lemma_bytes_len_add(s.subrange(start, end), s.subrange(end, hard));
}

/// The bytes of `v[a..b]`.
fn span_bytes(v: &Vec<char>, a: usize, b: usize) -> (r: usize)
    requires
        a <= b <= v@.len(),
        bytes_len(v@.subrange(a as int, b as int)) <= usize::MAX,
    ensures
        r == bytes_len(v@.subrange(a as int, b as int)),
{
    let mut total: usize = 0;
    let mut i: usize = a;
    proof {
        assert(v@.subrange(a as int, a as int) =~= Seq::<char>::empty());
    }
    while i < b
        invariant
            a <= i <= b <= v@.len(),
            total == bytes_len(v@.subrange(a as int, i as int)),
            bytes_len(v@.subrange(a as int, b as int)) <= usize::MAX,
        decreases b - i,
    {
        proof {
            let upto = v@.subrange(a as int, i + 1);
            assert(upto.drop_last() =~= v@.subrange(a as int, i as int));
            assert(v@.subrange(a as int, b as int) =~= upto + v@.subrange(i + 1, b as int));
            lemma_bytes_len_add(upto, v@.subrange(i + 1, b as int));
        }
        total += char_width(v[i]);
        i += 1;
    }
    total
}

/// Does the break behind `at` lie close enough to the hard cut?
fn is_near(v: &Vec<char>, start: usize, at: usize, hard: usize) -> (r: bool)
    requires
        start <= at < hard <= v@.len(),
        bytes_len(v@.subrange(start as int, hard as int)) <= usize::MAX,
    ensures
        r == is_friendly(v@, start as int, at as int, hard as int),
{
    proof {
        let head = v@.subrange(start as int, at + 1);
        let tail = v@.subrange(at + 1, hard as int);
        assert(v@.subrange(start as int, hard as int) =~= head + tail);
        lemma_bytes_len_add(head, tail);
    }
    span_bytes(v, at + 1, hard) < LOOKBACK
}

fn next_end(v: &Vec<char>, start: usize, max: usize) -> (end: usize)
    requires
        start <= v@.len(),
    ensures
        end == chunk_end(v@, start as int, max as int),
        start <= end <= v@.len(),
{
    let hard: usize = fit(v, start, max);
    proof {
        lemma_chunk_end(v@, start as int, max as int);
        lemma_fit(v@, start as int, max as int);
        lemma_last_before(v@, CharClass::Is('\n'), hard as int);
        lemma_last_before(v@, CharClass::WhiteSpace, hard as int);
        assert(v@.subrange(hard as int, hard as int) =~= Seq::<char>::empty());
    }
    if hard >= v.len() {
        return hard;
    }
    if let Some(i) = last_index(v, CharClass::Is('\n'), start, hard) {
        if is_near(v, start, i, hard) {
            return i + 1;
        }
    }
    if let Some(i) = last_index(v, CharClass::WhiteSpace, start, hard) {
        if is_near(v, start, i, hard) {
            return i + 1;
        }
    }
    hard
}

/// Splits `text` into messages of at most `max` bytes, never inside a
/// character. A break on a newline is preferred, then one on white space,
/// where it lies within the last bytes of the budget.
pub fn chunk_text(text: &str, max: usize) -> (r: Vec<String>)
    ensures
        r.deep_view() == chunked(text@, max as int),
{
    if byte_len(text) <= max {
        let mut one: Vec<String> = Vec::new();
        one.push(owned(text));
        proof {
            assert(one.deep_view() =~= seq![text@]);
        }
        return one;
    }
    let v = chars_of(text);
    let mut out: Vec<String> = Vec::new();
    let mut start: usize = 0;
    proof {
        assert(out.deep_view() + chunks_from(text@, 0, max as int) =~= chunks_from(
            text@,
            0,
            max as int,
        ));
    }
    while start < v.len()
        invariant
            v@ == text@,
            start <= v@.len(),
            bytes_len(text@) > max,
            out.deep_view() + chunks_from(text@, start as int, max as int) == chunks_from(
                text@,
                0,
                max as int,
            ),
        decreases v@.len() - start,
    {
        let end: usize = next_end(&v, start, max);
        if end == start {
            proof {
                assert(out.deep_view() + Seq::<Seq<char>>::empty() =~= out.deep_view());
            }
            return out;
        }
        let piece = string_of(&v, start, end);
        let ghost before = out.deep_view();
        out.push(piece);
        proof {
            assert(out.deep_view() =~= before.push(piece@));
            assert(before + (seq![piece@] + chunks_from(text@, end as int, max as int))
                =~= before.push(piece@) + chunks_from(text@, end as int, max as int));
        }
        start = end;
    }
    proof {
        assert(out.deep_view() + Seq::<Seq<char>>::empty() =~= out.deep_view());
    }
    out
}

proof fn lemma_chunks_rebuild(s: Seq<char>, start: int, max: int)
    requires
        0 <= start <= s.len(),
        max >= 4,
    ensures
        chunks_from(s, start, max).flatten() == s.subrange(start, s.len() as int),
    decreases s.len() - start,
{
    let all = chunks_from(s, start, max);
    if start < s.len() {
        lemma_chunk_end(s, start, max);
        let end = chunk_end(s, start, max);
        lemma_chunks_rebuild(s, end, max);
        assert(all.first() == s.subrange(start, end));
        assert(all.drop_first() =~= chunks_from(s, end, max));
        assert(s.subrange(start, s.len() as int) =~= s.subrange(start, end) + s.subrange(
            end,
            s.len() as int,
        ));
    } else {
        assert(s.subrange(start, s.len() as int) =~= Seq::<char>::empty());
        assert(all.flatten() =~= Seq::<char>::empty());
    }
}

proof fn lemma_chunks_fit(s: Seq<char>, start: int, max: int)
    requires
        0 <= start <= s.len(),
        max >= 0,
    ensures
        forall|i: int|
            #![trigger chunks_from(s, start, max)[i]]
            0 <= i < chunks_from(s, start, max).len() ==> bytes_len(chunks_from(s, start, max)[i])
                <= max && chunks_from(s, start, max)[i].len() > 0,
    decreases s.len() - start,
{
    let end = chunk_end(s, start, max);
    if start < s.len() {
        lemma_chunk_end(s, start, max);
        if end > start {
            lemma_chunks_fit(s, end, max);
            let all = chunks_from(s, start, max);
            assert forall|i: int| 0 <= i < all.len() implies bytes_len(#[trigger] all[i]) <= max
                && all[i].len() > 0 by {
                if i > 0 {
                    assert(all[i] == chunks_from(s, end, max)[i - 1]);
                }
            }
        }
    }
}

/// Nothing is lost or added: the messages put together are the text, as soon
/// as the budget holds any single character.
pub proof fn chunks_rebuild_the_text(s: Seq<char>, max: int)
    requires
        max >= 4,
    ensures
        chunked(s, max).flatten() == s,
{
    if bytes_len(s) <= max {
        assert(seq![s].drop_first() =~= Seq::<Seq<char>>::empty());
        assert(seq![s].flatten() =~= s) by {
            reveal_with_fuel(Seq::flatten, 2);
        }
    } else {
        lemma_chunks_rebuild(s, 0, max);
        assert(s.subrange(0, s.len() as int) =~= s);
    }
}

/// Every message stays within the budget.
pub proof fn chunks_fit_the_budget(s: Seq<char>, max: int, i: int)
    requires
        max >= 0,
        0 <= i < chunked(s, max).len(),
    ensures
        bytes_len(chunked(s, max)[i]) <= max,
{
    if bytes_len(s) > max {
        lemma_chunks_fit(s, 0, max);
    }
}

/// No message is empty, unless the text is.
pub proof fn chunks_are_not_empty(s: Seq<char>, max: int, i: int)
    requires
        max >= 0,
        s.len() > 0,
        0 <= i < chunked(s, max).len(),
    ensures
        chunked(s, max)[i].len() > 0,
{
    if bytes_len(s) > max {
        lemma_chunks_fit(s, 0, max);
    }
}

/// A break that lies later is at least as close to the hard cut.
proof fn lemma_later_is_nearer(s: Seq<char>, start: int, at: int, later: int, hard: int)
    requires
        0 <= start <= at <= later < hard <= s.len(),
        is_friendly(s, start, at, hard),
    ensures
        is_friendly(s, start, later, hard),
{
    let middle = s.subrange(at + 1, later + 1);
    let tail = s.subrange(later + 1, hard);
    assert(s.subrange(at + 1, hard) =~= middle + tail);
    lemma_bytes_len_add(middle, tail);
}

/// A word is only cut where there is no choice: wherever the text has to be
/// cut and the lookback holds a newline, the cut falls behind a newline; where
/// it holds white space, the cut falls behind white space.
pub proof fn cuts_fall_behind_white_space(s: Seq<char>, start: int, max: int, at: int)
    requires
        max >= 0,
        0 <= start <= at < fit_from(s, start, max) < s.len(),
        is_friendly(s, start, at, fit_from(s, start, max)),
        is_white_space(s[at]),
    ensures
        start < chunk_end(s, start, max),
        is_white_space(s[chunk_end(s, start, max) - 1]),
        s[at] == '\n' ==> s[chunk_end(s, start, max) - 1] == '\n',
{
    let hard = fit_from(s, start, max);
    lemma_last_before(s, CharClass::Is('\n'), hard);
    lemma_last_before(s, CharClass::WhiteSpace, hard);
    let space = last_before(s, CharClass::WhiteSpace, hard);
    assert(CharClass::WhiteSpace.has(s[at]));
    lemma_later_is_nearer(s, start, at, space, hard);
    if s[at] == '\n' {
        assert(CharClass::Is('\n').has(s[at]));
        lemma_later_is_nearer(s, start, at, last_before(s, CharClass::Is('\n'), hard), hard);
    }
}

// ---------------------------------------------------------------------------
// The reporter
// ---------------------------------------------------------------------------

/// What one turn has shown so far.
pub struct TelegramProgressReporter {
    pub bot_token: String,
    pub chat_id: i64,
    /// The live status message, absent where posting it failed.
    pub message_id: Option<i64>,
    /// The labels of the tools that ran, in order, each once.
    pub tools_seen: Vec<String>,
    /// Set by the first finalization; later calls change nothing.
    pub finalized: bool,
}

/// An edit of the live status message.
pub struct StatusEdit {
    pub message_id: i64,
    pub text: String,
}

/// The delivery of the final reply. What it sends is told by
/// `messages_to_send`.
pub struct FinalDelivery {
    /// The message to replace by `first`; absent, `first` is sent afresh.
    pub edit: Option<i64>,
    pub first: String,
    /// Sent one after the other once `first` is out.
    pub rest: Vec<String>,
}

/// The delivery of the final reply, with texts as characters.
pub struct DeliveryModel {
    pub edit: Option<i64>,
    pub first: Seq<char>,
    pub rest: Seq<Seq<char>>,
}

impl View for FinalDelivery {
    type V = DeliveryModel;

    open spec fn view(&self) -> DeliveryModel {
        DeliveryModel { edit: self.edit, first: self.first@, rest: self.rest.deep_view() }
    }
}

/// The delivery that puts `chunks` out, in the place of message `edit` where
/// there is one.
pub open spec fn delivery_of(edit: Option<i64>, chunks: Seq<Seq<char>>) -> DeliveryModel {
    DeliveryModel { edit, first: chunks[0], rest: chunks.skip(1) }
}

/// What a delivery sends afresh, in order, once its edit was tried: the first
/// part too, unless it replaced the placeholder.
pub open spec fn sent_by(d: DeliveryModel, edited: bool) -> Seq<Seq<char>> {
    if d.edit is Some && edited {
        d.rest
    } else {
        seq![d.first] + d.rest
    }
}

/// What a delivery sends afresh, in order. `edited` says that its edit went
/// through; without a placeholder there is none to try.
pub fn messages_to_send(d: FinalDelivery, edited: bool) -> (r: Vec<String>)
    ensures
        r.deep_view() == sent_by(d@, edited),
{
    let FinalDelivery { edit, first, rest } = d;
    let ghost later = rest.deep_view();
    let mut out = rest;
    if edit.is_none() || !edited {
        out.insert(0, first);
        proof {
            assert(out.deep_view() =~= seq![first@] + later);
        }
    }
    out
}

/// One bullet line per tool.
pub open spec fn bullets(tools: Seq<Seq<char>>) -> Seq<Seq<char>> {
    tools.map_values(|t: Seq<char>| "• "@ + t)
}

/// The status message for the tools seen so far.
pub open spec fn status_text(tools: Seq<Seq<char>>) -> Seq<char> {
    if tools.len() == 0 {
        status_header()
    } else {
        status_header() + "\n\n"@ + joined(bullets(tools), "\n"@)
    }
}

/// The tools seen once one more label is reported.
pub open spec fn with_label(tools: Seq<Seq<char>>, label: Seq<char>) -> Seq<Seq<char>> {
    if tools.contains(label) {
        tools
    } else {
        tools.push(label)
    }
}

/// Does `v` hold the string `x`?
pub fn holds(v: &Vec<String>, x: &str) -> (r: bool)
    ensures
        r == v.deep_view().contains(x@),
{
    let mut i: usize = 0;
    while i < v.len()
        invariant
            i <= v@.len(),
            forall|j: int| 0 <= j < i ==> #[trigger] v.deep_view()[j] != x@,
        decreases v@.len() - i,
    {
        if str_eq(v[i].as_str(), x) {
            proof {
                assert(v.deep_view()[i as int] == x@);
            }
            return true;
        }
        proof {
            assert(v.deep_view()[i as int] != x@);
        }
        i += 1;
    }
    false
}

/// What one turn has shown so far, with texts as characters.
pub struct ReporterModel {
    pub bot_token: Seq<char>,
    pub chat_id: i64,
    pub message_id: Option<i64>,
    pub tools_seen: Seq<Seq<char>>,
    pub finalized: bool,
}

impl View for TelegramProgressReporter {
    type V = ReporterModel;

    open spec fn view(&self) -> ReporterModel {
        ReporterModel {
            bot_token: self.bot_token@,
            chat_id: self.chat_id,
            message_id: self.message_id,
            tools_seen: self.tools_seen.deep_view(),
            finalized: self.finalized,
        }
    }
}

/// A call of the reporter.
pub enum ReporterCall {
    /// A tool ran.
    Tool(Seq<char>),
    /// The final reply is ready.
    Reply(Seq<char>),
}

/// What a call asks Telegram for.
pub enum Shown {
    Nothing,
    /// The live message is edited to a text.
    Status { message_id: i64, text: Seq<char> },
    Final(DeliveryModel),
}

/// The edit that a call asks for, if it asks for one.
pub open spec fn shown_status(e: Option<StatusEdit>) -> Shown {
    match e {
        Some(e) => Shown::Status { message_id: e.message_id, text: e.text@ },
        None => Shown::Nothing,
    }
}

/// The delivery that a call asks for, if it asks for one.
pub open spec fn shown_final(d: Option<FinalDelivery>) -> Shown {
    match d {
        Some(d) => Shown::Final(d@),
        None => Shown::Nothing,
    }
}

/// What a call does: the reporter after it, and what it asks Telegram for. A
/// tool is shown where it has a label and there is a live message; a reply is
/// delivered where it has a text. Once a reply was ready, nothing is shown.
pub open spec fn reporter_step(m: ReporterModel, call: ReporterCall) -> (ReporterModel, Shown) {
    match call {
        ReporterCall::Tool(name) => {
            let label = tool_label(name);
            if label.len() == 0 || m.finalized {
                (m, Shown::Nothing)
            } else {
                let seen = with_label(m.tools_seen, label);
                (
                    ReporterModel { tools_seen: seen, ..m },
                    match m.message_id {
                        Some(id) => Shown::Status { message_id: id, text: status_text(seen) },
                        None => Shown::Nothing,
                    },
                )
            }
        },
        ReporterCall::Reply(text) => (
            ReporterModel { finalized: true, ..m },
            if m.finalized || text.len() == 0 {
                Shown::Nothing
            } else {
                Shown::Final(delivery_of(m.message_id, chunked(text, TELEGRAM_MAX as int)))
            },
        ),
    }
}

impl TelegramProgressReporter {
    /// No tool is listed twice.
    pub open spec fn wf(self) -> bool {
        self.tools_seen.deep_view().no_duplicates()
    }

    /// A reporter that has posted nothing yet.
    pub fn new(bot_token: String, chat_id: i64) -> (r: Self)
        ensures
            r.wf(),
            r.bot_token == bot_token,
            r.chat_id == chat_id,
            r.message_id is None,
            r.tools_seen@.len() == 0,
            !r.finalized,
    {
        TelegramProgressReporter {
            bot_token,
            chat_id,
            message_id: None,
            tools_seen: Vec::new(),
            finalized: false,
        }
    }

    /// The placeholder was posted as message `posted`, or could not be posted.
    pub fn start(&mut self, posted: Option<i64>)
        requires
            old(self).wf(),
        ensures
            final(self).wf(),
            final(self).message_id == match posted {
                Some(id) => Some(id),
                None => old(self).message_id,
            },
            final(self).tools_seen == old(self).tools_seen,
            final(self).finalized == old(self).finalized,
            final(self).bot_token == old(self).bot_token,
            final(self).chat_id == old(self).chat_id,
    {
        if let Some(id) = posted {
            self.message_id = Some(id);
        }
    }

    /// A tool ran. The result is the edit that shows it, where there is a
    /// live message to edit.
    pub fn report_tool(&mut self, tool_name: &str) -> (r: Option<StatusEdit>)
        requires
            old(self).wf(),
        ensures
            final(self).wf(),
            (final(self)@, shown_status(r)) == reporter_step(
                old(self)@,
                ReporterCall::Tool(tool_name@),
            ),
    {
        let label = pretty_tool_label(tool_name);
        if label.as_str().is_empty() || self.finalized {
            return None;
        }
        let ghost seen = self.tools_seen.deep_view();
        if !holds(&self.tools_seen, label.as_str()) {
            self.tools_seen.push(label);
            proof {
                assert(self.tools_seen.deep_view() =~= seen.push(label@));
            }
        }
        match self.message_id {
            Some(id) => Some(
                StatusEdit { message_id: id, text: Self::render_status(&self.tools_seen) },
            ),
            None => None,
        }
    }

    /// The final reply is ready. Only the first call delivers it.
    pub fn finalize_with_text(&mut self, text: &str) -> (r: Option<FinalDelivery>)
        requires
            old(self).wf(),
        ensures
            final(self).wf(),
            (final(self)@, shown_final(r)) == reporter_step(
                old(self)@,
                ReporterCall::Reply(text@),
            ),
    {
        let done = self.finalized;
        self.finalized = true;
        if done || text.is_empty() {
            return None;
        }
        let mut chunks = chunk_text(text, TELEGRAM_MAX);
        let ghost all = chunks.deep_view();
        proof {
            lemma_chunked_some(text@, TELEGRAM_MAX as int);
        }
        let first = chunks.remove(0);
        proof {
            assert(first@ == all[0]);
            assert(chunks.deep_view() =~= all.skip(1));
        }
        Some(FinalDelivery { edit: self.message_id, first, rest: chunks })
    }

    /// The status message for the tools seen so far.
    pub fn render_status(tools: &Vec<String>) -> (r: String)
        ensures
            r@ == status_text(tools.deep_view()),
    {
        if tools.len() == 0 {
            return owned(status_header_text());
        }
        let mut lines: Vec<String> = Vec::new();
        let mut i: usize = 0;
        let ghost all = bullets(tools.deep_view());
        while i < tools.len()
            invariant
                i <= tools@.len(),
                all == bullets(tools.deep_view()),
                lines.deep_view() == all.take(i as int),
            decreases tools@.len() - i,
        {
            let line = cat2("• ", tools[i].as_str());
            let ghost before = lines.deep_view();
            lines.push(line);
            proof {
                assert(lines.deep_view() =~= before.push(line@));
                assert(all.take(i + 1) =~= all.take(i as int).push(all[i as int]));
            }
            i += 1;
        }
        proof {
            assert(all.take(i as int) =~= all);
        }
        let body = join(&lines, "\n");
        cat3(status_header_text(), "\n\n", body.as_str())
    }
}

proof fn lemma_chunked_some(s: Seq<char>, max: int)
    requires
        s.len() > 0,
        max >= 4,
    ensures
        chunked(s, max).len() > 0,
{
    if bytes_len(s) > max {
        lemma_chunk_end(s, 0, max);
    }
}

/// What Telegram is asked for in order to deliver a reply.
pub enum DeliveryCall {
    Edit { message_id: i64, text: Seq<char> },
    Send(Seq<char>),
}

/// The calls of a delivery, in order: the edit where there is a placeholder,
/// then what is sent, given whether the edit went through.
pub open spec fn delivery_calls(d: DeliveryModel, edited: bool) -> Seq<DeliveryCall> {
    (match d.edit {
        Some(id) => seq![DeliveryCall::Edit { message_id: id, text: d.first }],
        None => Seq::empty(),
    }) + sent_by(d, edited).map_values(|text: Seq<char>| DeliveryCall::Send(text))
}

/// The course of a delivery: the first part of the reply replaces the
/// placeholder, and is sent only where there is none or the edit fails; then
/// each later part is sent once, in order, and none of them is empty.
pub proof fn replies_are_delivered_in_order(m: ReporterModel, text: Seq<char>, edited: bool)
    requires
        !m.finalized,
        text.len() > 0,
    ensures
        ({
            let parts = chunked(text, TELEGRAM_MAX as int);
            let sent = parts.skip(1).map_values(|t: Seq<char>| DeliveryCall::Send(t));
            &&& parts.len() > 0
            &&& forall|i: int| 0 <= i < parts.len() ==> (#[trigger] parts[i]).len() > 0
            &&& reporter_step(m, ReporterCall::Reply(text)).1 matches Shown::Final(d) && delivery_calls(
                d,
                edited,
            ) == match m.message_id {
                Some(id) => if edited {
                    seq![DeliveryCall::Edit { message_id: id, text: parts[0] }] + sent
                } else {
                    seq![
                        DeliveryCall::Edit { message_id: id, text: parts[0] },
                        DeliveryCall::Send(parts[0]),
                    ] + sent
                },
                None => seq![DeliveryCall::Send(parts[0])] + sent,
            }
        }),
{
    let parts = chunked(text, TELEGRAM_MAX as int);
    let sent = parts.skip(1).map_values(|t: Seq<char>| DeliveryCall::Send(t));
    let d = delivery_of(m.message_id, parts);
    lemma_chunked_some(text, TELEGRAM_MAX as int);
    assert forall|i: int| 0 <= i < parts.len() implies (#[trigger] parts[i]).len() > 0 by {
        chunks_are_not_empty(text, TELEGRAM_MAX as int, i);
    }
    let all = sent_by(d, edited).map_values(|t: Seq<char>| DeliveryCall::Send(t));
    match m.message_id {
        Some(id) => {
            if edited {
                assert(delivery_calls(d, edited) =~= seq![
                    DeliveryCall::Edit { message_id: id, text: parts[0] },
                ] + sent);
            } else {
                assert(all =~= seq![DeliveryCall::Send(parts[0])] + sent);
                assert(delivery_calls(d, edited) =~= seq![
                    DeliveryCall::Edit { message_id: id, text: parts[0] },
                    DeliveryCall::Send(parts[0]),
                ] + sent);
            }
        },
        None => {
            assert(delivery_calls(d, edited) =~= seq![DeliveryCall::Send(parts[0])] + sent);
        },
    }
}

/// Nothing of a reply is lost or shown twice, whatever becomes of the edit:
/// what replaced the placeholder and what was sent make up the text.
pub proof fn replies_arrive_whole(m: ReporterModel, text: Seq<char>, edited: bool)
    requires
        !m.finalized,
        text.len() > 0,
    ensures
        reporter_step(m, ReporterCall::Reply(text)).1 matches Shown::Final(d) && ((
        if d.edit is Some && edited {
            seq![d.first]
        } else {
            Seq::empty()
        }) + sent_by(d, edited)).flatten() == text,
{
    let parts = chunked(text, TELEGRAM_MAX as int);
    let d = delivery_of(m.message_id, parts);
    lemma_chunked_some(text, TELEGRAM_MAX as int);
    chunks_rebuild_the_text(text, TELEGRAM_MAX as int);
    assert((if d.edit is Some && edited {
        seq![d.first]
    } else {
        Seq::empty()
    }) + sent_by(d, edited) =~= parts);
}

/// What a run of calls shows, call by call.
pub open spec fn shown_in(m: ReporterModel, calls: Seq<ReporterCall>) -> Seq<Shown>
    decreases calls.len(),
{
    if calls.len() == 0 {
        Seq::empty()
    } else {
        let (next, shown) = reporter_step(m, calls[0]);
        seq![shown] + shown_in(next, calls.skip(1))
    }
}

/// Once a reply was ready, every later call of the reporter, for a tool or for
/// another reply, sends and edits nothing.
pub proof fn nothing_follows_a_reply(m: ReporterModel, text: Seq<char>, calls: Seq<ReporterCall>)
    ensures
        ({
            let after = reporter_step(m, ReporterCall::Reply(text)).0;
            &&& shown_in(after, calls).len() == calls.len()
            &&& forall|i: int| 0 <= i < calls.len() ==> shown_in(after, calls)[i] is Nothing
        }),
{
    lemma_finalized(reporter_step(m, ReporterCall::Reply(text)).0, calls);
}

proof fn lemma_finalized(m: ReporterModel, calls: Seq<ReporterCall>)
    requires
        m.finalized,
    ensures
        shown_in(m, calls).len() == calls.len(),
        forall|i: int| 0 <= i < calls.len() ==> shown_in(m, calls)[i] is Nothing,
    decreases calls.len(),
{
    if calls.len() > 0 {
        lemma_finalized(reporter_step(m, calls[0]).0, calls.skip(1));
    }
}

/// Reporting a tool again changes nothing in what is shown.
pub proof fn reporting_twice_is_reporting_once(tools: Seq<Seq<char>>, label: Seq<char>)
    ensures
        with_label(with_label(tools, label), label) == with_label(tools, label),
{
    if !tools.contains(label) {
        assert(tools.push(label)[tools.len() as int] == label);
    }
}

/// Reporting a tool keeps the order of those seen before.
pub proof fn reporting_keeps_what_was_seen(tools: Seq<Seq<char>>, label: Seq<char>)
    ensures
        tools.is_prefix_of(with_label(tools, label)),
        with_label(tools, label).contains(label),
{
    if !tools.contains(label) {
        assert(tools.push(label)[tools.len() as int] == label);
        assert(tools.push(label).subrange(0, tools.len() as int) =~= tools);
    }
}

// ---------------------------------------------------------------------------
// The tools footer
// ---------------------------------------------------------------------------

/// The labels of the tools in the log that have one.
pub open spec fn log_labels(names: Seq<Seq<char>>) -> Seq<Seq<char>>
    decreases names.len(),
{
    if names.len() == 0 {
        Seq::empty()
    } else {
        let before = log_labels(names.drop_last());
        let label = tool_label(names.last());
        if label.len() == 0 {
            before
        } else {
            before.push(label)
        }
    }
}

/// The labels in the order in which they first occur.
pub open spec fn distinct(labels: Seq<Seq<char>>) -> Seq<Seq<char>>
    decreases labels.len(),
{
    if labels.len() == 0 {
        Seq::empty()
    } else {
        with_label(distinct(labels.drop_last()), labels.last())
    }
}

/// How often `label` occurs.
pub open spec fn occurrences(labels: Seq<Seq<char>>, label: Seq<char>) -> nat
    decreases labels.len(),
{
    if labels.len() == 0 {
        0
    } else {
        occurrences(labels.drop_last(), label) + if labels.last() == label {
            1nat
        } else {
            0nat
        }
    }
}

/// A label, with its count where it occurs more than once.
pub open spec fn footer_part(labels: Seq<Seq<char>>, label: Seq<char>) -> Seq<char> {
    if occurrences(labels, label) > 1 {
        label + " ×"@ + decimal(occurrences(labels, label))
    } else {
        label
    }
}

/// The footer that lists the tools of a turn; empty where none has a label.
pub open spec fn tools_footer(names: Seq<Seq<char>>) -> Seq<char> {
    let labels = log_labels(names);
    if labels.len() == 0 {
        Seq::empty()
    } else {
        "— Tools used: "@ + joined(
            distinct(labels).map_values(|l: Seq<char>| footer_part(labels, l)),
            ", "@,
        )
    }
}

/// Every label is listed once, and it is listed exactly when it occurs.
pub proof fn distinct_lists_each_label_once(labels: Seq<Seq<char>>)
    ensures
        distinct(labels).no_duplicates(),
        forall|l: Seq<char>| #[trigger] distinct(labels).contains(l) <==> labels.contains(l),
        forall|l: Seq<char>| labels.contains(l) <==> #[trigger] occurrences(labels, l) > 0,
    decreases labels.len(),
{
    if labels.len() > 0 {
        let init = labels.drop_last();
        let last = labels.last();
        distinct_lists_each_label_once(init);
        let d = distinct(init);
        assert forall|l: Seq<char>| #[trigger] distinct(labels).contains(l) <==> labels.contains(
            l,
        ) by {
            assert(labels =~= init.push(last));
            if labels.contains(l) {
                let i = choose|i: int| 0 <= i < labels.len() && labels[i] == l;
                if i < init.len() {
                    assert(init[i] == l);
                    assert(d.contains(l));
                    let j = choose|j: int| 0 <= j < d.len() && d[j] == l;
                    assert(distinct(labels)[j] == l);
                } else if !d.contains(last) {
                    assert(distinct(labels)[d.len() as int] == last);
                }
            }
            if distinct(labels).contains(l) {
                let j = choose|j: int| 0 <= j < distinct(labels).len() && distinct(labels)[j] == l;
                if j < d.len() {
                    assert(d[j] == l);
                    assert(d.contains(l));
                    assert(init.contains(l));
                    let i = choose|i: int| 0 <= i < init.len() && init[i] == l;
                    assert(labels[i] == l);
                } else {
                    assert(labels[init.len() as int] == l);
                }
            }
        }
        assert forall|l: Seq<char>| labels.contains(l) <==> #[trigger] occurrences(labels, l)
            > 0 by {
            if labels.contains(l) {
                let i = choose|i: int| 0 <= i < labels.len() && labels[i] == l;
                if i < init.len() {
                    assert(init[i] == l);
                    assert(init.contains(l));
                }
            }
            if occurrences(labels, l) > 0 {
                if last == l {
                    assert(labels[init.len() as int] == l);
                } else {
                    assert(occurrences(init, l) > 0);
                    assert(init.contains(l));
                    let i = choose|i: int| 0 <= i < init.len() && init[i] == l;
                    assert(labels[i] == l);
                }
            }
        }
    }
}

proof fn lemma_occurrences_bound(labels: Seq<Seq<char>>, l: Seq<char>)
    ensures
        occurrences(labels, l) <= labels.len(),
    decreases labels.len(),
{
    if labels.len() > 0 {
        lemma_occurrences_bound(labels.drop_last(), l);
    }
}

/// The index of `x` in `v`.
fn position(v: &Vec<String>, x: &str) -> (r: Option<usize>)
    ensures
        match r {
            Some(i) => i < v@.len() && v.deep_view()[i as int] == x@,
            None => !v.deep_view().contains(x@),
        },
{
    let mut i: usize = 0;
    while i < v.len()
        invariant
            i <= v@.len(),
            forall|j: int| 0 <= j < i ==> #[trigger] v.deep_view()[j] != x@,
        decreases v@.len() - i,
    {
        if str_eq(v[i].as_str(), x) {
            return Some(i);
        }
        proof {
            assert(v.deep_view()[i as int] != x@);
        }
        i += 1;
    }
    None
}

/// A "Tools used" footer from the names of the tools that ran: each label
/// once, in the order of first appearance, with its count where it repeats.
pub fn build_telegram_tools_footer(names: &Vec<String>) -> (r: String)
    ensures
        r@ == tools_footer(names.deep_view()),
{
    let ghost log = names.deep_view();
    let mut order: Vec<String> = Vec::new();
    let mut counts: Vec<u64> = Vec::new();
    let mut i: usize = 0;
    let ghost mut labels: Seq<Seq<char>> = Seq::empty();
    while i < names.len()
        invariant
            log == names.deep_view(),
            i <= names@.len(),
            labels == log_labels(log.take(i as int)),
            labels.len() <= i,
            order.deep_view() == distinct(labels),
            order@.len() == counts@.len(),
            forall|j: int|
                0 <= j < counts@.len() ==> #[trigger] counts@[j] == occurrences(
                    labels,
                    order.deep_view()[j],
                ),
        decreases names@.len() - i,
    {
        let label = pretty_tool_label(names[i].as_str());
        proof {
            assert(log.take(i + 1).drop_last() =~= log.take(i as int));
            assert(log.take(i + 1).last() == log[i as int]);
        }
        i += 1;
        if label.as_str().is_empty() {
            continue;
        }
        let ghost old_labels = labels;
        let ghost old_order = order.deep_view();
        let ghost l = label@;
        proof {
            labels = old_labels.push(l);
            assert(labels.drop_last() =~= old_labels);
            distinct_lists_each_label_once(old_labels);
            lemma_occurrences_bound(old_labels, l);
        }
        match position(&order, label.as_str()) {
            Some(j) => {
                proof {
                    assert(old_order.contains(l));
                    assert(counts@[j as int] <= i);
                }
                let n: u64 = counts[j] + 1;
                counts.set(j, n);
                proof {
                    assert forall|m: int| 0 <= m < counts@.len() implies #[trigger] counts@[m]
                        == occurrences(labels, order.deep_view()[m]) by {
                        if m != j {
                            assert(old_order[m] != old_order[j as int]);
                        }
                    }
                }
            },
            None => {
                order.push(label);
                counts.push(1);
                proof {
                    assert(order.deep_view() =~= old_order.push(l));
                    assert(!old_labels.contains(l));
                    assert forall|m: int| 0 <= m < counts@.len() implies #[trigger] counts@[m]
                        == occurrences(labels, order.deep_view()[m]) by {
                        if m < old_order.len() {
                            assert(old_order.contains(old_order[m]));
                            assert(order.deep_view()[m] == old_order[m]);
                        }
                    }
                }
            },
        }
    }
    proof {
        assert(log.take(i as int) =~= log);
    }
    if order.len() == 0 {
        proof {
            distinct_lists_each_label_once(labels);
            assert(order.deep_view().len() == order@.len());
            if labels.len() > 0 {
                assert(labels.contains(labels[0]));
                assert(distinct(labels).contains(labels[0]));
            }
        }
        return String::new();
    }
    proof {
        assert(labels.len() > 0) by {
            if labels.len() == 0 {
                assert(order.deep_view().len() == 0);
                assert(order.deep_view().len() == order@.len());
            }
        }
    }
    let ghost want = distinct(labels).map_values(|l: Seq<char>| footer_part(labels, l));
    let mut parts: Vec<String> = Vec::new();
    let mut k: usize = 0;
    while k < order.len()
        invariant
            k <= order@.len(),
            order@.len() == counts@.len(),
            order.deep_view() == distinct(labels),
            want == distinct(labels).map_values(|l: Seq<char>| footer_part(labels, l)),
            parts.deep_view() == want.take(k as int),
            forall|j: int|
                0 <= j < counts@.len() ==> #[trigger] counts@[j] == occurrences(
                    labels,
                    order.deep_view()[j],
                ),
        decreases order@.len() - k,
    {
        let n: u64 = counts[k];
        let part = if n > 1 {
            let num = decimal_u64(n);
            cat3(order[k].as_str(), " ×", num.as_str())
        } else {
            order[k].clone()
        };
        let ghost before = parts.deep_view();
        proof {
            assert(order.deep_view()[k as int] == order@[k as int]@);
            assert(counts@[k as int] == n);
            assert(part@ == want[k as int]);
        }
        parts.push(part);
        proof {
            assert(parts.deep_view() =~= before.push(part@));
            assert(want.take(k + 1) =~= want.take(k as int).push(want[k as int]));
        }
        k += 1;
    }
    proof {
        assert(want.take(k as int) =~= want);
    }
    let list = join(&parts, ", ");
    cat2("— Tools used: ", list.as_str())
}

// ---------------------------------------------------------------------------
// What progress reports promise
// ---------------------------------------------------------------------------

/// A tool that the app brings is shown by its label. One of a server is shown
/// by the part of its name behind the double underscore, and any other by its
/// own name.
pub proof fn tools_are_shown_by_name(raw: Seq<char>, server: Seq<char>, suffix: Seq<char>)
    ensures
        builtin_label(raw) matches Some(label) ==> tool_label(raw) == label,
        builtin_label(raw) is None && !contains_text(raw, "__"@) ==> tool_label(raw) == humanized(
            raw,
        ),
        builtin_label(server + "__"@ + suffix) is None && find_from(
            server + "__"@ + suffix,
            "__"@,
            0,
        ) == server.len() ==> tool_label(server + "__"@ + suffix) == suffix_label(suffix),
        builtin_label(suffix) matches Some(label) ==> suffix_label(suffix) == label,
        builtin_label(suffix) is None && suffix_alias(suffix) is None ==> suffix_label(suffix)
            == humanized(suffix),
        builtin_label(suffix) is None ==> (suffix_alias(suffix) matches Some(target) ==> (
        builtin_label(target) matches Some(label) ==> suffix_label(suffix) == label)),
{
    reveal_strlit("__");
    let s = server + "__"@ + suffix;
    assert(s.subrange(server.len() as int + 2, s.len() as int) =~= suffix);
    lemma_find_from(raw, "__"@, 0);
}

/// A name is made readable by spaces in place of its underscores and a capital
/// in front; nothing else changes.
pub proof fn names_are_made_readable(raw: Seq<char>, i: int)
    requires
        raw.len() > 0,
        raw[0] as u32 <= 0x7f,
        0 <= i < raw.len(),
    ensures
        humanized(raw).len() == raw.len(),
        i > 0 && raw[i] == '_' ==> humanized(raw)[i] == ' ',
        i > 0 && raw[i] != '_' ==> humanized(raw)[i] == raw[i],
        'a' <= raw[0] <= 'z' ==> humanized(raw)[0] as u32 == raw[0] as u32 - 32,
        !('a' <= raw[0] <= 'z') && raw[0] != '_' ==> humanized(raw)[0] == raw[0],
        humanized(Seq::empty()).len() == 0,
{
    let r = replaced(raw, '_', ' ');
    assert(r[0] as u32 <= 0x7f);
    assert(humanized(raw) == seq![upper(r[0])] + r.subrange(1, raw.len() as int));
}

/// A message holds at most four thousand and ninety-six bytes. A long text is
/// cut at the last line break within the two hundred bytes before that limit,
/// else at the last white space there, else right at the limit.
pub proof fn cuts_prefer_line_breaks(s: Seq<char>, start: int, max: int)
    requires
        0 <= start <= s.len(),
        0 <= max,
    ensures
        TELEGRAM_MAX == 4096,
        ({
            let hard = fit_from(s, start, max);
            let newline = last_before(s, CharClass::Is('\n'), hard);
            let space = last_before(s, CharClass::WhiteSpace, hard);
            let end = chunk_end(s, start, max);
            &&& hard == s.len() ==> end == hard
            &&& hard < s.len() && newline >= start && bytes_len(s.subrange(newline + 1, hard))
                < 200 ==> end == newline + 1
            &&& hard < s.len() && !(newline >= start && bytes_len(s.subrange(newline + 1, hard))
                < 200) && space >= start && bytes_len(s.subrange(space + 1, hard)) < 200 ==> end
                == space + 1
            &&& hard < s.len() && !(newline >= start && bytes_len(s.subrange(newline + 1, hard))
                < 200) && !(space >= start && bytes_len(s.subrange(space + 1, hard)) < 200) ==> end
                == hard
        }),
        bytes_len(s) <= max ==> chunked(s, max) == seq![s],
        bytes_len(s) > max ==> chunked(s, max) == chunks_from(s, 0, max),
{
    lemma_fit(s, start, max);
}

/// The status lists the tools seen so far, each once, under its heading.
pub proof fn the_status_lists_the_tools(tools: Seq<Seq<char>>, label: Seq<char>, i: int)
    ensures
        status_text(Seq::empty()) == "🤔 Working on it…"@,
        tools.len() > 0 ==> status_text(tools) == "🤔 Working on it…"@ + "\n\n"@ + joined(
            bullets(tools),
            "\n"@,
        ),
        bullets(tools).len() == tools.len(),
        0 <= i < tools.len() ==> bullets(tools)[i] == "• "@ + tools[i],
        tools.contains(label) ==> with_label(tools, label) == tools,
        !tools.contains(label) ==> with_label(tools, label) == tools + seq![label],
{
    if !tools.contains(label) {
        assert(with_label(tools, label) =~= tools + seq![label]);
    }
}

/// A tool that is reported before the reply is added to what was seen and
/// shown in the status message, where there is one. After the reply, or
/// without a label, nothing changes.
pub proof fn tools_are_reported_until_the_reply(m: ReporterModel, name: Seq<char>)
    ensures
        ({
            let r = reporter_step(m, ReporterCall::Tool(name));
            let seen = with_label(m.tools_seen, tool_label(name));
            &&& m.finalized || tool_label(name).len() == 0 ==> r == (m, Shown::Nothing)
            &&& !m.finalized && tool_label(name).len() > 0 ==> {
                &&& r.0 == (ReporterModel { tools_seen: seen, ..m })
                &&& m.message_id matches Some(id) ==> r.1 == (Shown::Status {
                    message_id: id,
                    text: status_text(seen),
                })
                &&& m.message_id is None ==> r.1 is Nothing
            }
        }),
{
}

/// A reply ends the report, and nothing else of it changes. Only the first one
/// that has a text is delivered.
pub proof fn the_first_reply_is_delivered(m: ReporterModel, text: Seq<char>)
    ensures
        ({
            let r = reporter_step(m, ReporterCall::Reply(text));
            &&& r.0 == (ReporterModel { finalized: true, ..m })
            &&& m.finalized || text.len() == 0 ==> r.1 is Nothing
            &&& !m.finalized && text.len() > 0 ==> (r.1 matches Shown::Final(d) && d.edit
                == m.message_id && seq![d.first] + d.rest == chunked(text, 4096))
        }),
{
    if !m.finalized && text.len() > 0 {
        replies_are_delivered_in_order(m, text, true);
        let parts = chunked(text, 4096);
        assert(seq![parts[0]] + parts.skip(1) =~= parts);
    }
}

/// The labels of a log come in its order; a tool without a label is left out.
pub proof fn labels_follow_the_log(a: Seq<Seq<char>>, b: Seq<Seq<char>>, one: Seq<char>)
    ensures
        log_labels(a + b) == log_labels(a) + log_labels(b),
        tool_label(one).len() > 0 ==> log_labels(seq![one]) == seq![tool_label(one)],
        tool_label(one).len() == 0 ==> log_labels(seq![one]).len() == 0,
    decreases b.len(),
{
    if b.len() == 0 {
        assert(a + b =~= a);
        assert(log_labels(a) + log_labels(b) =~= log_labels(a));
    } else {
        labels_follow_the_log(a, b.drop_last(), one);
        assert((a + b).drop_last() =~= a + b.drop_last());
        assert(log_labels(a + b) =~= log_labels(a) + log_labels(b));
    }
    assert(seq![one].drop_last() =~= Seq::<Seq<char>>::empty());
    assert(seq![one].last() == one);
    reveal_with_fuel(log_labels, 2);
    if tool_label(one).len() > 0 {
        assert(log_labels(seq![one]) =~= seq![tool_label(one)]);
    }
}

/// Uses are counted one by one, and labels are listed by their first use.
pub proof fn uses_are_counted(a: Seq<Seq<char>>, b: Seq<Seq<char>>, one: Seq<char>, l: Seq<char>)
    ensures
        occurrences(a + b, l) == occurrences(a, l) + occurrences(b, l),
        occurrences(seq![one], l) == (if one == l {
            1nat
        } else {
            0nat
        }),
        a.contains(one) ==> distinct(a.push(one)) == distinct(a),
        !a.contains(one) ==> distinct(a.push(one)) == distinct(a).push(one),
    decreases b.len(),
{
    if b.len() == 0 {
        assert(a + b =~= a);
    } else {
        uses_are_counted(a, b.drop_last(), one, l);
        assert((a + b).drop_last() =~= a + b.drop_last());
    }
    assert(seq![one].drop_last() =~= Seq::<Seq<char>>::empty());
    assert(seq![one].last() == one);
    reveal_with_fuel(occurrences, 2);
    assert(a.push(one).drop_last() =~= a);
    assert(a.push(one).last() == one);
    distinct_lists_each_label_once(a);
    assert(distinct(a).contains(one) <==> a.contains(one));
}

/// The footer names each tool once, with the number of its uses where there
/// was more than one; without any there is no footer.
pub proof fn the_footer_counts_the_tools(names: Seq<Seq<char>>, label: Seq<char>)
    ensures
        ({
            let labels = log_labels(names);
            let parts = distinct(labels).map_values(|l: Seq<char>| footer_part(labels, l));
            &&& labels.len() == 0 ==> tools_footer(names).len() == 0
            &&& labels.len() > 0 ==> tools_footer(names) == "— Tools used: "@ + joined(parts, ", "@)
            &&& occurrences(labels, label) > 1 ==> footer_part(labels, label) == label + " ×"@
                + decimal(occurrences(labels, label))
            &&& occurrences(labels, label) <= 1 ==> footer_part(labels, label) == label
        }),
{
}

/// The tools that the app brings have these labels, and no other tool has one.
pub proof fn own_tools_have_labels(name: Seq<char>)
    ensures
        builtin_label(name) matches Some(label) ==> {
            ||| name == "read"@ && label == "Read"@
            ||| name == "list_directory"@ && label == "List"@
            ||| name == "grep"@ && label == "Search files"@
            ||| name == "write"@ && label == "Write"@
            ||| name == "edit"@ && label == "Edit"@
            ||| name == "shell_execute"@ && label == "Run"@
            ||| name == "shell_spawn"@ && label == "Spawn"@
            ||| name == "shell_kill"@ && label == "Stop"@
            ||| name == "shell_logs"@ && label == "Logs"@
            ||| name == "web_search"@ && label == "Search web"@
            ||| name == "web_fetch"@ && label == "Fetch"@
            ||| name == "memory_store"@ && label == "Save"@
            ||| name == "memory_recall"@ && label == "Recall"@
            ||| name == "calendar_list"@ && label == "Events"@
            ||| name == "calendar_create"@ && label == "Create event"@
            ||| name == "calendar_update"@ && label == "Update event"@
            ||| name == "calendar_delete"@ && label == "Delete event"@
            ||| name == "contacts_list"@ && label == "Contacts"@
            ||| name == "contacts_search"@ && label == "Find contact"@
            ||| name == "contacts_create"@ && label == "Add contact"@
            ||| name == "contacts_update"@ && label == "Update contact"@
            ||| name == "contacts_delete"@ && label == "Delete contact"@
            ||| name == "delete_path"@ && label == "Delete"@
            ||| name == "append_file"@ && label == "Append"@
            ||| name == "create_dir"@ && label == "Create folder"@
            ||| name == "move_path"@ && label == "Move"@
            ||| name == "exists"@ && label == "Check"@
            ||| name == "stat"@ && label == "Info"@
            ||| name == "delegate_to_agent"@ && label == "Consult specialist"@
            ||| name == "install_package"@ && label == "Install package"@
            ||| name == "uninstall_package"@ && label == "Uninstall package"@
            ||| name == "list_installed_packages"@ && label == "List packages"@
        },
        ({
            ||| name == "read"@
            ||| name == "list_directory"@
            ||| name == "grep"@
            ||| name == "write"@
            ||| name == "edit"@
            ||| name == "shell_execute"@
            ||| name == "shell_spawn"@
            ||| name == "shell_kill"@
            ||| name == "shell_logs"@
            ||| name == "web_search"@
            ||| name == "web_fetch"@
            ||| name == "memory_store"@
            ||| name == "memory_recall"@
            ||| name == "calendar_list"@
            ||| name == "calendar_create"@
            ||| name == "calendar_update"@
            ||| name == "calendar_delete"@
            ||| name == "contacts_list"@
            ||| name == "contacts_search"@
            ||| name == "contacts_create"@
            ||| name == "contacts_update"@
            ||| name == "contacts_delete"@
            ||| name == "delete_path"@
            ||| name == "append_file"@
            ||| name == "create_dir"@
            ||| name == "move_path"@
            ||| name == "exists"@
            ||| name == "stat"@
            ||| name == "delegate_to_agent"@
            ||| name == "install_package"@
            ||| name == "uninstall_package"@
            ||| name == "list_installed_packages"@
        }) ==> builtin_label(name) is Some,
        suffix_alias(name) matches Some(target) ==> {
            ||| name == "read_file"@ && target == "read"@
            ||| name == "write_file"@ && target == "write"@
            ||| name == "list_dir"@ && target == "list_directory"@
            ||| name == "list_files"@ && target == "list_directory"@
            ||| name == "search_files"@ && target == "grep"@
        },
        ({
            ||| name == "read_file"@
            ||| name == "write_file"@
            ||| name == "list_dir"@
            ||| name == "list_files"@
            ||| name == "search_files"@
        }) ==> suffix_alias(name) is Some,
{
}

/// What is shown follows the calls, one by one.
pub proof fn shows_follow_the_calls(m: ReporterModel, call: ReporterCall, rest: Seq<ReporterCall>)
    ensures
        shown_in(m, Seq::empty()).len() == 0,
        shown_in(m, seq![call] + rest) == seq![reporter_step(m, call).1] + shown_in(
            reporter_step(m, call).0,
            rest,
        ),
{
    assert((seq![call] + rest).skip(1) =~= rest);
    assert((seq![call] + rest)[0] == call);
}

} // verus!
