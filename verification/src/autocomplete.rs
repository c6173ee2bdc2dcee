//! The composer's autocompletion popup: slash commands and `@` file
//! mentions.
//!
//! The popup is a pure view over prefetched, already filtered data. Its rows
//! are section headers and selectable entries; a keyboard cursor (the
//! highlight) moves over the selectable rows only, every change of the token
//! under the caret snaps the cursor back to the first row and clears a
//! standing dismissal, and accepting a row replaces the token with the row's
//! text.

use vstd::prelude::*;
use crate::text::{chars_of, owned, slice_chars, str_equal, string_of};

verus! {

/// What the token under the caret completes.
#[derive(Clone, Copy, Debug, PartialEq, Eq, Structural)]
pub enum TriggerKind {
    /// A `/` slash command.
    Command,
    /// An `@` mention of a file or reference.
    File,
}

/// The completable token under the composer's caret: its kind, the text
/// typed after the sigil, and the byte range of the whole token in the
/// composer's text.
#[derive(Debug)]
pub struct Trigger {
    pub kind: TriggerKind,
    pub query: String,
    pub start: usize,
    pub end: usize,
}

/// Whether two triggers are the same token.
pub open spec fn same_trigger(a: Trigger, b: Trigger) -> bool {
    a.kind == b.kind && a.query@ == b.query@ && a.start == b.start && a.end == b.end
}

/// Whether two optional triggers are the same.
pub open spec fn same_token(a: Option<Trigger>, b: Option<Trigger>) -> bool {
    match (a, b) {
        (None, None) => true,
        (Some(x), Some(y)) => same_trigger(x, y),
        _ => false,
    }
}

/// A filtered entry with the character positions the fuzzy match hit.
#[derive(Debug)]
pub struct Scored<T> {
    pub positions: Vec<u32>,
    pub item: T,
}

/// A slash command offered by the selected agent. `composer_text` is what
/// accepting it writes into the composer.
#[derive(Debug)]
pub struct SlashCommand {
    pub name: String,
    pub description: String,
    pub argument_hint: Option<String>,
    pub composer_text: String,
}

/// A named reference (a repository or document alias) that can be mentioned.
#[derive(Debug)]
pub struct ReferenceEntry {
    pub alias: String,
    pub description: Option<String>,
}

/// A file or directory of the project that can be mentioned.
#[derive(Debug)]
pub struct FileEntry {
    pub path: String,
    pub is_dir: bool,
}

/// One row of the popup.
#[derive(Debug)]
pub enum AutocompleteRow {
    Header(String),
    Command(Scored<SlashCommand>),
    Reference(Scored<ReferenceEntry>),
    File(Scored<FileEntry>),
}

/// Whether row `i` of `rows` can be highlighted and accepted.
pub open spec fn selectable_at(rows: Seq<AutocompleteRow>, i: int) -> bool {
    0 <= i < rows.len() && !(rows[i] is Header)
}

/// `sel` lists exactly the selectable rows of `rows`, in increasing order.
pub open spec fn lists_selectable(rows: Seq<AutocompleteRow>, sel: Seq<usize>) -> bool {
    &&& forall|k: int| 0 <= k < sel.len() ==> selectable_at(rows, #[trigger] sel[k] as int)
    &&& forall|k: int, l: int| 0 <= k < l < sel.len() ==> #[trigger] sel[k] < #[trigger] sel[l]
    &&& forall|i: int| selectable_at(rows, i) ==> #[trigger] sel.contains(i as usize)
}

/// The indexes of the rows that are not section headers.
pub fn selectable_row_indexes(rows: &[AutocompleteRow]) -> (r: Vec<usize>)
    ensures
        lists_selectable(rows@, r@),
{
    let mut out: Vec<usize> = Vec::new();
    let mut i: usize = 0;
    while i < rows.len()
        invariant
            i <= rows@.len(),
            forall|k: int| 0 <= k < out@.len() ==> selectable_at(rows@, #[trigger] out@[k] as int),
            forall|k: int| 0 <= k < out@.len() ==> #[trigger] out@[k] < i,
            forall|k: int, l: int| 0 <= k < l < out@.len() ==> #[trigger] out@[k] < #[trigger] out@[l],
            forall|j: int| 0 <= j < i && selectable_at(rows@, j) ==> #[trigger] out@.contains(j as usize),
        decreases rows.len() - i,
    {
        let header = matches!(rows[i], AutocompleteRow::Header(_));
        if !header {
            let ghost before = out@;
            out.push(i);
            assert forall|j: int| 0 <= j < i + 1 && selectable_at(rows@, j) implies #[trigger] out@.contains(j as usize) by {
                if j < i {
                    assert(before.contains(j as usize));
                    let k = choose|k: int| 0 <= k < before.len() && before[k] == j as usize;
                    assert(out@[k] == j as usize);
                } else {
                    assert(out@[before.len() as int] == i);
                }
            }
        }
        i = i + 1;
    }
    out
}

/// Whether the navigation key is `up`.
pub fn is_up_key(key: &str) -> (r: bool)
    ensures
        r == (key@ == "up"@),
{
    str_equal(key, "up")
}

/// The row the list scrolls to when the cursor lands on selectable row
/// `next_pos`: the top of the list for the first selectable row (so a top
/// header stays visible); the section's header when moving `up` onto a row
/// right below one; the row itself otherwise.
pub open spec fn scroll_target(rows: Seq<AutocompleteRow>, sel: Seq<usize>, next_pos: int, key: Seq<char>) -> int {
    let next: int = if 0 <= next_pos < sel.len() { sel[next_pos] as int } else { 0 };
    if next_pos == 0 {
        0
    } else if key == "up"@ && next > 0 && next - 1 < rows.len() && rows[next - 1] is Header {
        next - 1
    } else {
        next
    }
}

pub fn scroll_target_for_row_navigation(
    rows: &[AutocompleteRow],
    selectable: &[usize],
    next_pos: usize,
    key: &str,
) -> (r: usize)
    ensures
        r as int == scroll_target(rows@, selectable@, next_pos as int, key@),
{
    let next = if next_pos < selectable.len() { selectable[next_pos] } else { 0 };
    if next_pos == 0 {
        0
    } else if is_up_key(key) && next > 0 && next - 1 < rows.len() && matches!(rows[next - 1], AutocompleteRow::Header(_)) {
        next - 1
    } else {
        next
    }
}

/// The popup's cross-frame state.
#[derive(Debug)]
pub struct AutocompleteUi {
    /// The token as of the last frame, for detecting changes.
    pub token: Option<Trigger>,
    /// The keyboard cursor: the index of the highlighted row.
    pub highlight: usize,
    /// Escape was pressed on the current token.
    pub dismissed: bool,
    /// The row the list was last asked to scroll to.
    pub scroll_target: Option<usize>,
}

fn copy_trigger(t: &Trigger) -> (r: Trigger)
    ensures
        same_trigger(r, *t),
{
    Trigger { kind: t.kind, query: t.query.clone(), start: t.start, end: t.end }
}

fn same_token_exec(a: &Option<Trigger>, b: &Option<Trigger>) -> (r: bool)
    ensures
        r == same_token(*a, *b),
{
    match (a, b) {
        (None, None) => true,
        (Some(x), Some(y)) => x.kind == y.kind && x.query == y.query && x.start == y.start && x.end == y.end,
        _ => false,
    }
}

impl AutocompleteUi {
    pub fn new() -> (r: Self)
        ensures
            r.token is None,
            r.highlight == 0,
            !r.dismissed,
            r.scroll_target is None,
    {
        AutocompleteUi { token: None, highlight: 0, dismissed: false, scroll_target: None }
    }

    /// Reconcile the popup with the token now under the caret (`None` while
    /// the composer is unfocused or there is nothing to complete). A
    /// different token renumbers the rows: the cursor goes back to the first
    /// row, a standing dismissal is cleared and the list scrolls to the top.
    /// The token is returned unless it has been dismissed.
    pub fn composer_trigger(&mut self, current: Option<Trigger>) -> (r: Option<Trigger>)
        ensures
            same_token(final(self).token, current),
            !same_token(old(self).token, current) ==> {
                &&& final(self).highlight == 0
                &&& !final(self).dismissed
                &&& final(self).scroll_target == Some(0usize)
            },
            same_token(old(self).token, current) ==> {
                &&& final(self).highlight == old(self).highlight
                &&& final(self).dismissed == old(self).dismissed
                &&& final(self).scroll_target == old(self).scroll_target
            },
            final(self).dismissed ==> r is None,
            !final(self).dismissed ==> same_token(r, current),
    {
        if !same_token_exec(&self.token, &current) {
            self.token = match &current {
                Some(t) => Some(copy_trigger(t)),
                None => None,
            };
            self.highlight = 0;
            self.dismissed = false;
            self.scroll_target = Some(0);
        }
        if self.dismissed {
            return None;
        }
        current
    }

    /// Escape on the current token: the popup stays closed until the token
    /// changes.
    pub fn dismiss_autocomplete(&mut self)
        ensures
            final(self).dismissed,
            same_token(final(self).token, old(self).token),
            final(self).highlight == old(self).highlight,
            final(self).scroll_target == old(self).scroll_target,
    {
        self.dismissed = true;
    }

    /// The position of the highlighted row among the selectable rows, or 0
    /// when the highlight is on none of them.
    pub fn highlight_position(&self, selectable: &[usize]) -> (r: usize)
        ensures
            selectable@.contains(self.highlight) ==> r < selectable@.len() && selectable@[r as int] == self.highlight
                && forall|k: int| 0 <= k < r ==> selectable@[k] != self.highlight,
            !selectable@.contains(self.highlight) ==> r == 0,
    {
        let mut k: usize = 0;
        while k < selectable.len()
            invariant
                k <= selectable@.len(),
                forall|q: int| 0 <= q < k ==> selectable@[q] != self.highlight,
            decreases selectable.len() - k,
        {
            if selectable[k] == self.highlight {
                return k;
            }
            k = k + 1;
        }
        0
    }

    /// Move the cursor to selectable row `next_pos` after the key `key`,
    /// scrolling so the row (and the header above it) stays in view.
    pub fn move_autocomplete_highlight(
        &mut self,
        rows: &[AutocompleteRow],
        selectable: &[usize],
        next_pos: usize,
        key: &str,
    )
        requires
            next_pos < selectable@.len(),
        ensures
            final(self).highlight == selectable@[next_pos as int],
            final(self).scroll_target == Some(scroll_target(rows@, selectable@, next_pos as int, key@) as usize),
            same_token(final(self).token, old(self).token),
            final(self).dismissed == old(self).dismissed,
    {
        self.highlight = selectable[next_pos];
        let target = scroll_target_for_row_navigation(rows, selectable, next_pos, key);
        self.scroll_target = Some(target);
    }

    /// The row that accepting takes: the clicked row, else the highlighted
    /// row when it is selectable, else the first selectable row, else 0.
    pub fn accepted_row(&self, rows: &[AutocompleteRow], clicked: Option<usize>) -> (r: usize)
        ensures
            clicked matches Some(c) ==> r == c,
            clicked is None ==> r == (if selectable_at(rows@, self.highlight as int) {
                self.highlight as int
            } else {
                first_selectable(rows@)
            }),
    {
        match clicked {
            Some(c) => c,
            None => {
                if self.highlight < rows.len() && !matches!(rows[self.highlight], AutocompleteRow::Header(_)) {
                    self.highlight
                } else {
                    first_selectable_row(rows)
                }
            },
        }
    }
}

/// The index of the first selectable row, or 0 when there is none.
pub open spec fn first_selectable(rows: Seq<AutocompleteRow>) -> int {
    if exists|i: int| selectable_at(rows, i) {
        choose|i: int| selectable_at(rows, i) && forall|j: int| 0 <= j < i ==> !selectable_at(rows, j)
    } else {
        0
    }
}

fn first_selectable_row(rows: &[AutocompleteRow]) -> (r: usize)
    ensures
        r == first_selectable(rows@),
{
    let mut i: usize = 0;
    while i < rows.len()
        invariant
            i <= rows@.len(),
            forall|j: int| 0 <= j < i ==> !selectable_at(rows@, j),
        decreases rows.len() - i,
    {
        if !matches!(rows[i], AutocompleteRow::Header(_)) {
            proof {
                let c = choose|c: int| selectable_at(rows@, c) && forall|j: int| 0 <= j < c ==> !selectable_at(rows@, j);
                assert(selectable_at(rows@, i as int));
                if c < i {
                    assert(!selectable_at(rows@, c));
                }
                if c > i {
                    assert(!selectable_at(rows@, i as int));
                }
            }
            return i;
        }
        i = i + 1;
    }
    assert forall|j: int| !selectable_at(rows@, j) by {}
    0
}

/// Whether `row` is a header titled `title`.
pub open spec fn is_header_titled(row: AutocompleteRow, title: Seq<char>) -> bool {
    row matches AutocompleteRow::Header(h) && h@ == title
}

/// The rows for a command token: one row per filtered command, in order.
pub fn command_rows(commands: Vec<Scored<SlashCommand>>) -> (r: Vec<AutocompleteRow>)
    ensures
        r@.len() == commands@.len(),
        forall|k: int| 0 <= k < r@.len() ==> #[trigger] r@[k] == AutocompleteRow::Command(commands@[k]),
{
    let ghost src = commands@;
    let mut rows: Vec<AutocompleteRow> = Vec::new();
    for c in it: commands.into_iter()
        invariant
            it.seq() == src,
            rows@.len() == it.index(),
            forall|k: int| 0 <= k < rows@.len() ==> #[trigger] rows@[k] == AutocompleteRow::Command(src[k]),
    {
        rows.push(AutocompleteRow::Command(c));
    }
    rows
}

/// The rows for a mention token: a "References" section when any
/// reference matched, then a "Files" section when any file matched, each
/// under its header.
pub open spec fn mention_rows_shape(
    rows: Seq<AutocompleteRow>,
    references: Seq<Scored<ReferenceEntry>>,
    files: Seq<Scored<FileEntry>>,
) -> bool {
    let rn: int = if references.len() > 0 { references.len() as int + 1 } else { 0 };
    let f0: int = rn;
    &&& rows.len() == rn + (if files.len() > 0 { files.len() as int + 1 } else { 0 })
    &&& references.len() > 0 ==> is_header_titled(rows[0], "References"@)
    &&& forall|k: int| 0 <= k < references.len() ==> #[trigger] rows[k + 1] == AutocompleteRow::Reference(references[k])
    &&& files.len() > 0 ==> is_header_titled(rows[f0], "Files"@)
    &&& forall|k: int| 0 <= k < files.len() ==> #[trigger] rows[f0 + 1 + k] == AutocompleteRow::File(files[k])
}

pub fn mention_rows(references: Vec<Scored<ReferenceEntry>>, files: Vec<Scored<FileEntry>>) -> (r: Vec<AutocompleteRow>)
    ensures
        mention_rows_shape(r@, references@, files@),
{
    let ghost refs = references@;
    let ghost fs = files@;
    let mut rows: Vec<AutocompleteRow> = Vec::new();
    if references.len() > 0 {
        rows.push(AutocompleteRow::Header(owned("References")));
        for e in it: references.into_iter()
            invariant
                it.seq() == refs,
                refs.len() > 0,
                rows@.len() == it.index() + 1,
                is_header_titled(rows@[0], "References"@),
                forall|k: int| 0 <= k < it.index() ==> #[trigger] rows@[k + 1] == AutocompleteRow::Reference(refs[k]),
        {
            rows.push(AutocompleteRow::Reference(e));
        }
    }
    let ghost f0 = rows@.len();
    let ghost head = rows@;
    assert(f0 == (if refs.len() > 0 { refs.len() + 1 } else { 0 }));
    if files.len() > 0 {
        rows.push(AutocompleteRow::Header(owned("Files")));
        for e in it: files.into_iter()
            invariant
                it.seq() == fs,
                fs.len() > 0,
                rows@.len() == f0 + 1 + it.index(),
                forall|k: int| 0 <= k < f0 ==> rows@[k] == head[k],
                is_header_titled(rows@[f0 as int], "Files"@),
                forall|k: int| 0 <= k < it.index() ==> #[trigger] rows@[f0 + 1 + k] == AutocompleteRow::File(fs[k]),
        {
            rows.push(AutocompleteRow::File(e));
        }
    }
    assert(refs.len() > 0 ==> rows@[0] == head[0]);
    assert forall|k: int| 0 <= k < refs.len() implies #[trigger] rows@[k + 1] == AutocompleteRow::Reference(refs[k]) by {
        assert(rows@[k + 1] == head[k + 1]);
    }
    rows
}

/// The text accepting a row writes over the token: a command's composer
/// text, `@alias` or `@path`, each followed by a space. Headers write
/// nothing.
pub open spec fn insertion_of(row: AutocompleteRow) -> Option<Seq<char>> {
    match row {
        AutocompleteRow::Header(_) => None,
        AutocompleteRow::Command(s) => Some(s.item.composer_text@ + " "@),
        AutocompleteRow::Reference(s) => Some("@"@ + s.item.alias@ + " "@),
        AutocompleteRow::File(s) => Some("@"@ + s.item.path@ + " "@),
    }
}

fn concat3(a: &str, b: &str, c: &str) -> (r: String)
    ensures
        r@ == a@ + b@ + c@,
{
    let mut out = String::from_str(a);
    out.append(b);
    out.append(c);
    out
}

pub fn autocomplete_insertion(row: &AutocompleteRow) -> (r: Option<String>)
    ensures
        r matches Some(t) ==> insertion_of(*row) == Some(t@),
        r is None ==> insertion_of(*row) is None,
{
    match row {
        AutocompleteRow::Header(_) => None,
        AutocompleteRow::Command(s) => {
            let mut out = String::from_str(s.item.composer_text.as_str());
            out.append(" ");
            Some(out)
        },
        AutocompleteRow::Reference(s) => Some(concat3("@", s.item.alias.as_str(), " ")),
        AutocompleteRow::File(s) => Some(concat3("@", s.item.path.as_str(), " ")),
    }
}

/// What accepting a row does to the composer: replace the token's byte
/// range with `text`. A command is first offered to the local command
/// handler as a submission.
#[derive(Debug)]
pub struct AutocompleteEdit {
    pub start: usize,
    pub end: usize,
    pub text: String,
    pub is_command: bool,
}

impl AutocompleteUi {
    /// Accept the clicked row (`Some`) or, from the keyboard (`None`), the
    /// highlighted row. Nothing happens when the index is past the rows or
    /// lands on a header.
    pub fn accept_autocomplete(&self, trigger: &Trigger, rows: &[AutocompleteRow], clicked: Option<usize>) -> (r: Option<AutocompleteEdit>)
        ensures
            ({
                let index: int = if clicked is Some { clicked->0 as int } else if selectable_at(rows@, self.highlight as int) {
                    self.highlight as int
                } else {
                    first_selectable(rows@)
                };
                &&& (0 <= index < rows@.len() && insertion_of(rows@[index]) is Some) <==> r is Some
                &&& r matches Some(e) ==> {
                    &&& e.start == trigger.start
                    &&& e.end == trigger.end
                    &&& insertion_of(rows@[index]) == Some(e.text@)
                    &&& e.is_command == (rows@[index] is Command)
                }
            }),
    {
        let index = self.accepted_row(rows, clicked);
        if index >= rows.len() {
            return None;
        }
        let row = &rows[index];
        match autocomplete_insertion(row) {
            None => None,
            Some(text) => Some(AutocompleteEdit {
                start: trigger.start,
                end: trigger.end,
                text,
                is_command: matches!(row, AutocompleteRow::Command(_)),
            }),
        }
    }

    /// The highlight the popup draws: kept when it is on a selectable row,
    /// otherwise moved to the first selectable row (or 0).
    pub fn reconcile_highlight(&mut self, selectable: &[usize]) -> (r: usize)
        ensures
            r == final(self).highlight,
            selectable@.contains(old(self).highlight) ==> r == old(self).highlight,
            !selectable@.contains(old(self).highlight) ==> r == (if selectable@.len() > 0 { selectable@[0] } else { 0 }),
            same_token(final(self).token, old(self).token),
            final(self).dismissed == old(self).dismissed,
            final(self).scroll_target == old(self).scroll_target,
    {
        let mut k: usize = 0;
        while k < selectable.len()
            invariant
                k <= selectable@.len(),
                forall|q: int| 0 <= q < k ==> selectable@[q] != self.highlight,
            decreases selectable.len() - k,
        {
            if selectable[k] == self.highlight {
                return self.highlight;
            }
            k = k + 1;
        }
        let first = if selectable.len() > 0 { selectable[0] } else { 0 };
        self.highlight = first;
        first
    }
}

/// Whether the popup is drawn: while it has rows, or while the index it
/// filters is still loading.
pub fn popup_shown(row_count: usize, loading: bool) -> (r: bool)
    ensures
        r == (row_count > 0 || loading),
{
    !(row_count == 0 && !loading)
}

/// One styled run of a row's text: `len` bytes, drawn in the accent style
/// when they are a fuzzy-match hit.
#[derive(Clone, Copy, Debug, PartialEq, Eq, Structural)]
pub struct TextSpan {
    pub len: usize,
    pub accent: bool,
}

/// Where the runs of the ranges `ranges` end.
pub open spec fn ranges_end(ranges: Seq<(usize, usize)>) -> int {
    if ranges.len() == 0 { 0 } else { ranges.last().1 as int }
}

/// The plain run from `cursor` up to `to`, if there is anything between.
pub open spec fn gap_span(cursor: int, to: int) -> Seq<TextSpan> {
    if to > cursor { seq![TextSpan { len: (to - cursor) as usize, accent: false }] } else { Seq::empty() }
}

/// The runs for the ranges: before each range the plain text since the
/// previous one, then the range itself in the accent style.
pub open spec fn range_spans(ranges: Seq<(usize, usize)>) -> Seq<TextSpan>
    decreases ranges.len(),
{
    if ranges.len() == 0 {
        Seq::empty()
    } else {
        let r = ranges.last();
        let accent_len: int = if r.1 > r.0 { r.1 - r.0 } else { 0 };
        range_spans(ranges.drop_last()) + gap_span(ranges_end(ranges.drop_last()), r.0 as int)
            + seq![TextSpan { len: accent_len as usize, accent: true }]
    }
}

/// The runs of a text of `text_len` bytes: the ranges' runs, then the rest
/// of the text in the plain style.
pub open spec fn text_spans(text_len: int, ranges: Seq<(usize, usize)>) -> Seq<TextSpan> {
    range_spans(ranges) + gap_span(ranges_end(ranges), text_len)
}

/// The runs that draw a row's text with its fuzzy-matched byte ranges in
/// the accent style.
pub fn matched_runs(text_len: usize, ranges: &[(usize, usize)]) -> (r: Vec<TextSpan>)
    ensures
        r@ == text_spans(text_len as int, ranges@),
{
    let mut runs: Vec<TextSpan> = Vec::new();
    let mut cursor: usize = 0;
    let mut k: usize = 0;
    assert(ranges@.take(0) =~= Seq::<(usize, usize)>::empty());
    while k < ranges.len()
        invariant
            k <= ranges@.len(),
            runs@ == range_spans(ranges@.take(k as int)),
            cursor as int == ranges_end(ranges@.take(k as int)),
        decreases ranges.len() - k,
    {
        let (start, end) = ranges[k];
        assert(ranges@.take(k + 1).drop_last() =~= ranges@.take(k as int));
        assert(ranges@.take(k + 1).last() == ranges@[k as int]);
        if start > cursor {
            runs.push(TextSpan { len: start - cursor, accent: false });
        }
        let len = if end > start { end - start } else { 0 };
        runs.push(TextSpan { len, accent: true });
        cursor = end;
        k = k + 1;
    }
    assert(ranges@.take(ranges@.len() as int) =~= ranges@);
    if cursor < text_len {
        runs.push(TextSpan { len: text_len - cursor, accent: false });
    }
    runs
}

/// The total length of some runs.
pub open spec fn spans_len(spans: Seq<TextSpan>) -> int
    decreases spans.len(),
{
    if spans.len() == 0 { 0 } else { spans_len(spans.drop_last()) + spans.last().len }
}

/// The ranges are in order, do not overlap, and lie inside the text.
pub open spec fn ranges_tile(text_len: int, ranges: Seq<(usize, usize)>) -> bool {
    &&& forall|k: int| 0 <= k < ranges.len() ==> #[trigger] ranges[k].0 <= ranges[k].1 && ranges[k].1 <= text_len
    &&& forall|k: int| 0 < k < ranges.len() ==> ranges[k - 1].1 <= #[trigger] ranges[k].0
}

proof fn lemma_spans_len_append(a: Seq<TextSpan>, b: Seq<TextSpan>)
    ensures
        spans_len(a + b) == spans_len(a) + spans_len(b),
    decreases b.len(),
{
    if b.len() == 0 {
        assert(a + b =~= a);
    } else {
        lemma_spans_len_append(a, b.drop_last());
        assert((a + b).drop_last() =~= a + b.drop_last());
    }
}

proof fn lemma_range_spans_len(ranges: Seq<(usize, usize)>, text_len: int)
    requires
        ranges_tile(text_len, ranges),
    ensures
        spans_len(range_spans(ranges)) == ranges_end(ranges),
    decreases ranges.len(),
{
    if ranges.len() > 0 {
        let rest = ranges.drop_last();
        assert(ranges_tile(text_len, rest)) by {
            assert forall|k: int| 0 < k < rest.len() implies rest[k - 1].1 <= #[trigger] rest[k].0 by {
                assert(rest[k] == ranges[k] && rest[k - 1] == ranges[k - 1]);
            }
            assert forall|k: int| 0 <= k < rest.len() implies #[trigger] rest[k].0 <= rest[k].1 && rest[k].1 <= text_len by {
                assert(rest[k] == ranges[k]);
            }
        }
        lemma_range_spans_len(rest, text_len);
        let r = ranges.last();
        let g = gap_span(ranges_end(rest), r.0 as int);
        let accent_len: int = if r.1 > r.0 { r.1 - r.0 } else { 0 };
        let a = seq![TextSpan { len: accent_len as usize, accent: true }];
        assert(range_spans(ranges) == range_spans(rest) + g + a);
        lemma_spans_len_append(range_spans(rest) + g, a);
        lemma_spans_len_append(range_spans(rest), g);
        if rest.len() > 0 {
            assert(ranges[ranges.len() - 2].1 <= ranges[ranges.len() - 1].0);
        }
        assert(spans_len(Seq::<TextSpan>::empty()) == 0);
        assert(spans_len(a) == r.1 - r.0) by {
            assert(a.drop_last() =~= Seq::<TextSpan>::empty());
        }
        assert(spans_len(g) == r.0 - ranges_end(rest)) by {
            if r.0 > ranges_end(rest) {
                assert(g.drop_last() =~= Seq::<TextSpan>::empty());
            } else {
                assert(g =~= Seq::<TextSpan>::empty());
            }
        }
    }
}

/// For ordered, non-overlapping ranges inside the text, the runs tile the
/// text exactly: their lengths add up to the text's length.
pub proof fn law_runs_tile_the_text(text_len: usize, ranges: Seq<(usize, usize)>)
    requires
        ranges_tile(text_len as int, ranges),
    ensures
        spans_len(text_spans(text_len as int, ranges)) == text_len,
{
    lemma_range_spans_len(ranges, text_len as int);
    let g = gap_span(ranges_end(ranges), text_len as int);
    lemma_spans_len_append(range_spans(ranges), g);
    if ranges.len() > 0 {
        assert(ranges[ranges.len() - 1].1 <= text_len);
    }
    assert(spans_len(Seq::<TextSpan>::empty()) == 0);
    if text_len > ranges_end(ranges) {
        assert(g.drop_last() =~= Seq::<TextSpan>::empty());
    } else {
        assert(g =~= Seq::<TextSpan>::empty());
    }
}

/// How a file row labels its entry: the name (the last path component,
/// with a directory's trailing slash), the parent path drawn after it, and
/// the number of characters before the name.
pub open spec fn file_label(path: Seq<char>) -> (Seq<char>, Seq<char>, int) {
    let t = trim_trailing_slashes_len(path, path.len() as int);
    let k = last_slash_before(path, t);
    if k < 0 {
        (path, Seq::empty(), 0)
    } else {
        (path.skip(k + 1), path.take(k), k + 1)
    }
}

/// The length of `path.take(n)` without its trailing slashes.
pub open spec fn trim_trailing_slashes_len(path: Seq<char>, n: int) -> int
    decreases n,
{
    if n <= 0 {
        0
    } else if path[n - 1] == '/' {
        trim_trailing_slashes_len(path, n - 1)
    } else {
        n
    }
}

/// The index of the last `/` before `n`, or -1.
pub open spec fn last_slash_before(path: Seq<char>, n: int) -> int
    decreases n,
{
    if n <= 0 {
        -1
    } else if path[n - 1] == '/' {
        n - 1
    } else {
        last_slash_before(path, n - 1)
    }
}

proof fn lemma_trim_slashes_bounds(path: Seq<char>, n: int)
    requires
        0 <= n <= path.len(),
    ensures
        0 <= trim_trailing_slashes_len(path, n) <= n,
    decreases n,
{
    if n > 0 && path[n - 1] == '/' {
        lemma_trim_slashes_bounds(path, n - 1);
    }
}

proof fn lemma_last_slash_bounds(path: Seq<char>, n: int)
    requires
        0 <= n <= path.len(),
    ensures
        -1 <= last_slash_before(path, n) < n,
    decreases n,
{
    if n > 0 && path[n - 1] != '/' {
        lemma_last_slash_bounds(path, n - 1);
    }
}

/// The name, the parent and the name's character offset for a file row.
pub fn file_row_label(path: &str) -> (r: (String, String, usize))
    ensures
        r.0@ == file_label(path@).0,
        r.1@ == file_label(path@).1,
        r.2 as int == file_label(path@).2,
{
    let cs = chars_of(path);
    let n = cs.len();
    let mut t: usize = n;
    while t > 0 && cs[t - 1] == '/'
        invariant
            t <= n,
            n == cs@.len(),
            trim_trailing_slashes_len(cs@, n as int) == trim_trailing_slashes_len(cs@, t as int),
        decreases t,
    {
        t = t - 1;
    }
    proof {
        lemma_trim_slashes_bounds(cs@, n as int);
    }
    let ghost tt = t as int;
    let mut j: usize = t;
    while j > 0 && cs[j - 1] != '/'
        invariant
            j <= tt,
            tt <= n,
            n == cs@.len(),
            last_slash_before(cs@, tt) == last_slash_before(cs@, j as int),
        decreases j,
    {
        j = j - 1;
    }
    if j == 0 {
        (string_of(cs.as_slice()), String::new(), 0)
    } else {
        let name = slice_chars(cs.as_slice(), j, n);
        let parent = slice_chars(cs.as_slice(), 0, j - 1);
        assert(name@ =~= cs@.skip(j as int));
        assert(parent@ =~= cs@.take(j - 1));
        (string_of(name.as_slice()), string_of(parent.as_slice()), j)
    }
}

} // verus!
