//! The text shown by the terminal browser: number labels, cut and wrapped
//! columns, titles and status lines. Drawing them is left to the caller.
use vstd::prelude::*;
use crate::search::SearchResult;
use crate::text::{
    chars_of, string_of, split_words, words, lemma_words_nonempty, text_views, joined, join_texts,
    decimal, decimal_text, digit_char, digit,
};
use crate::tui::app::{App, AppModel, BrowseItem, ItemModel, Mode, SearchMode, effective};

verus! {

// ───────────────────────────── cutting ─────────────────────────────

/// The horizontal ellipsis that marks a cut text.
pub const ELLIPSIS: char = '\u{2026}';

/// `t` cut to `max` characters: unchanged when it fits, else its first
/// `max - 1` characters followed by an ellipsis (just the ellipsis for a
/// `max` of 0).
pub open spec fn truncated(t: Seq<char>, max: nat) -> Seq<char> {
    if t.len() <= max {
        t
    } else if max == 0 {
        seq![ELLIPSIS]
    } else {
        t.take(max - 1).push(ELLIPSIS)
    }
}

/// `truncated` on characters.
fn truncate_chars(t: &Vec<char>, max: usize) -> (r: Vec<char>)
    ensures
        r@ == truncated(t@, max as nat),
{
    let n = t.len();
    if n <= max {
        return t.clone();
    }
    let keep: usize = if max > 0 {
        max - 1
    } else {
        0
    };
    let mut r: Vec<char> = Vec::new();
    for i in 0..keep
        invariant
            n == t@.len(),
            keep < n,
            r@ == t@.take(i as int),
    {
        r.push(t[i]);
        assert(r@ =~= t@.take(i + 1));
    }
    r.push(ELLIPSIS);
    r
}

/// Cuts `text` to at most `max_chars` characters, marking a cut with an
/// ellipsis (see `truncated`). With `max_chars` of at least 1 the result
/// never has more than `max_chars` characters.
pub fn truncate(text: &str, max_chars: usize) -> (r: String)
    ensures
        r@ == truncated(text@, max_chars as nat),
        max_chars >= 1 ==> r@.len() <= max_chars,
        text@.len() <= max_chars ==> r@ == text@,
{
    let chars = chars_of(text);
    let cut = truncate_chars(&chars, max_chars);
    string_of(cut.as_slice())
}

// ───────────────────────────── wrapping ─────────────────────────────

/// Greedy word wrapping of the words `ws[i..]`, with the lines `lines`
/// already complete and the line `cur` being filled: a word joins the line
/// (after a space) while the line stays within `width`; otherwise the line
/// is complete and the word, cut to `width`, starts the next one. Wrapping
/// stops once `max_lines` lines are complete; the last line is kept if there
/// is room for it.
pub open spec fn wrap_from(
    ws: Seq<Seq<char>>,
    i: int,
    lines: Seq<Seq<char>>,
    cur: Seq<char>,
    width: nat,
    max_lines: nat,
) -> Seq<Seq<char>>
    decreases ws.len() - i,
{
    if i < 0 || i >= ws.len() {
        if cur.len() > 0 && lines.len() < max_lines {
            lines.push(cur)
        } else {
            lines
        }
    } else if cur.len() == 0 {
        wrap_from(ws, i + 1, lines, truncated(ws[i], width), width, max_lines)
    } else if cur.len() + 1 + ws[i].len() <= width {
        wrap_from(ws, i + 1, lines, cur + seq![' '] + ws[i], width, max_lines)
    } else if lines.len() + 1 >= max_lines {
        lines.push(cur)
    } else {
        wrap_from(ws, i + 1, lines.push(cur), truncated(ws[i], width), width, max_lines)
    }
}

/// The lines of `text` word-wrapped to `width` characters, at most
/// `max_lines` of them; none for an empty text, width or line count.
pub open spec fn wrapped(text: Seq<char>, width: nat, max_lines: nat) -> Seq<Seq<char>> {
    if text.len() == 0 || width == 0 || max_lines == 0 {
        Seq::empty()
    } else {
        wrap_from(words(text), 0, Seq::empty(), Seq::empty(), width, max_lines)
    }
}

/// Word-wraps `text` into lines of at most `max_width` characters, at most
/// `max_lines` of them (see `wrapped`). Every line holds at least one
/// character.
pub fn wrap_text(text: &str, max_width: usize, max_lines: usize) -> (r: Vec<String>)
    ensures
        text_views(r@) == wrapped(text@, max_width as nat, max_lines as nat),
        r@.len() <= max_lines,
        forall|k: int| 0 <= k < r@.len() ==> 0 < (#[trigger] r@[k])@.len() <= max_width,
{
    if text.is_empty() || max_width == 0 || max_lines == 0 {
        return Vec::new();
    }
    let chars = chars_of(text);
    let ws = split_words(chars.as_slice());
    let ghost wv = ws@.map_values(|w: Vec<char>| w@);
    proof {
        lemma_words_nonempty(text@, 0, Seq::empty());
    }
    let width = max_width;
    let mut lines: Vec<String> = Vec::new();
    let mut cur: Vec<char> = Vec::new();
    let n = ws.len();
    let mut i: usize = 0;
    assert(text_views(lines@) =~= Seq::<Seq<char>>::empty());
    assert(cur@ =~= Seq::<char>::empty());
    while i < n
        invariant
            n == ws@.len(),
            wv == ws@.map_values(|w: Vec<char>| w@),
            wv == words(text@),
            forall|k: int| 0 <= k < wv.len() ==> #[trigger] wv[k].len() > 0,
            width == max_width,
            width >= 1,
            max_lines >= 1,
            i <= n,
            wrapped(text@, max_width as nat, max_lines as nat) == wrap_from(
                wv,
                i as int,
                text_views(lines@),
                cur@,
                max_width as nat,
                max_lines as nat,
            ),
            lines@.len() < max_lines,
            cur@.len() <= width,
            forall|k: int| 0 <= k < lines@.len() ==> 0 < (#[trigger] lines@[k])@.len() <= max_width,
        decreases n - i,
    {
        let w = &ws[i];
        assert(w@ == wv[i as int]);
        let wlen = w.len();
        let ghost old_cur = cur@;
        let ghost lv = text_views(lines@);
        if cur.len() == 0 {
            cur = truncate_chars(w, width);
        } else if cur.len() < width && wlen <= width - 1 - cur.len() {
            cur.push(' ');
            let mut j: usize = 0;
            let ghost base = cur@;
            while j < wlen
                invariant
                    wlen == w@.len(),
                    j <= wlen,
                    cur@ == base + w@.take(j as int),
                decreases wlen - j,
            {
                cur.push(w[j]);
                j = j + 1;
                assert(cur@ =~= base + w@.take(j as int));
            }
            assert(w@.take(wlen as int) =~= w@);
            assert(cur@ =~= old_cur + seq![' '] + w@);
        } else {
            let ghost before = text_views(lines@);
            lines.push(string_of(cur.as_slice()));
            assert(text_views(lines@) =~= before.push(cur@));
            if lines.len() >= max_lines {
                return lines;
            }
            cur = truncate_chars(w, width);
        }
        i = i + 1;
    }
    if cur.len() > 0 && lines.len() < max_lines {
        let ghost before = text_views(lines@);
        lines.push(string_of(cur.as_slice()));
        assert(text_views(lines@) =~= before.push(cur@));
    }
    lines
}

// ───────────────────────────── labels and titles ─────────────────────────────

/// The label of the row at `idx`: `[1]` to `[9]`, `[0]` for the tenth row
/// (the digit keys that pick them), blank beyond.
pub open spec fn number_label(idx: nat) -> Seq<char> {
    if idx < 9 {
        seq![' ', '[', digit_char(idx + 1), ']', ' ']
    } else if idx == 9 {
        seq![' ', '[', '0', ']', ' ']
    } else {
        seq![' ', ' ', ' ', ' ', ' ', ' ']
    }
}

/// The label of the row at `idx` (see `number_label`).
pub fn num_label(idx: usize) -> (r: String)
    ensures
        r@ == number_label(idx as nat),
{
    let mut v: Vec<char> = Vec::new();
    if idx < 9 {
        v.push(' ');
        v.push('[');
        v.push(digit(idx + 1));
        v.push(']');
        v.push(' ');
    } else if idx == 9 {
        v.push(' ');
        v.push('[');
        v.push('0');
        v.push(']');
        v.push(' ');
    } else {
        let mut k: usize = 0;
        while k < 6
            invariant
                k <= 6,
                v@.len() == k,
                forall|j: int| 0 <= j < k ==> #[trigger] v@[j] == ' ',
            decreases 6 - k,
        {
            v.push(' ');
            k = k + 1;
        }
    }
    assert(v@ =~= number_label(idx as nat));
    string_of(v.as_slice())
}

/// The title of the folder listing: the breadcrumb joined by ` > `, or `/`
/// at the root, with a space on each side.
pub open spec fn listing_title(breadcrumb: Seq<Seq<char>>) -> Seq<char> {
    if breadcrumb.len() == 0 {
        " / "@
    } else {
        " "@ + joined(breadcrumb, " > "@) + " "@
    }
}

/// The title of the folder listing (see `listing_title`).
pub fn browse_title(breadcrumb: &Vec<String>) -> (r: String)
    ensures
        r@ == listing_title(text_views(breadcrumb@)),
{
    if breadcrumb.len() == 0 {
        return String::from_str(" / ");
    }
    let mut r = String::from_str(" ");
    let path = join_texts(breadcrumb, " > ");
    r.append(path.as_str());
    r.append(" ");
    r
}

/// The title of the result list: the number of results.
pub open spec fn results_heading(n: nat) -> Seq<char> {
    " results: "@ + decimal(n) + " "@
}

/// The title of the result list (see `results_heading`).
pub fn results_title(n: usize) -> (r: String)
    ensures
        r@ == results_heading(n as nat),
{
    let mut r = String::from_str(" results: ");
    let digits = decimal_text(n);
    r.append(string_of(digits.as_slice()).as_str());
    r.append(" ");
    r
}

/// The text of the search box: a magnifier and the query.
pub open spec fn query_line(query: Seq<char>) -> Seq<char> {
    "\u{1F50D} "@ + query
}

/// The text of the search box (see `query_line`).
pub fn query_text(query: &str) -> (r: String)
    ensures
        r@ == query_line(query@),
{
    let mut r = String::from_str("\u{1F50D} ");
    r.append(query);
    r
}

/// The label beside the query: the search mode while searching.
pub open spec fn mode_tag(mode: Mode, search_mode: SearchMode) -> Seq<char> {
    match mode {
        Mode::Browse => ""@,
        Mode::Search => match search_mode {
            SearchMode::Fuzzy => " fuzzy "@,
            SearchMode::Exact => " exact "@,
        },
    }
}

/// The label beside the query (see `mode_tag`).
pub fn mode_label(mode: Mode, search_mode: SearchMode) -> (r: &'static str)
    ensures
        r@ == mode_tag(mode, search_mode),
{
    match mode {
        Mode::Browse => "",
        Mode::Search => match search_mode {
            SearchMode::Fuzzy => " fuzzy ",
            SearchMode::Exact => " exact ",
        },
    }
}

/// The text of a folder row: a folder icon and the folder's name.
pub open spec fn folder_label(name: Seq<char>) -> Seq<char> {
    "\u{1F4C1}  "@ + name
}

/// The text of a folder row (see `folder_label`).
pub fn folder_cell(name: &str) -> (r: String)
    ensures
        r@ == folder_label(name@),
{
    let mut r = String::from_str("\u{1F4C1}  ");
    r.append(name);
    r
}

/// The command column of a row: `$  ` and the command text, cut to `width`
/// characters.
pub open spec fn command_label(cmd: Seq<char>, width: nat) -> Seq<char> {
    truncated("$  "@ + cmd, width)
}

/// The command column of a row (see `command_label`).
pub fn command_cell(cmd: &str, width: usize) -> (r: String)
    ensures
        r@ == command_label(cmd@, width as nat),
        width >= 1 ==> r@.len() <= width,
{
    let mut t = String::from_str("$  ");
    t.append(cmd);
    truncate(t.as_str(), width)
}

// ───────────────────────────── result rows ─────────────────────────────

/// The tags, each behind a `#`.
pub open spec fn hashed(tags: Seq<Seq<char>>) -> Seq<Seq<char>> {
    tags.map_values(|t: Seq<char>| "#"@ + t)
}

/// The parts of a result's meta line: the folder path in brackets, joined
/// by `/`, and the tags behind `#`, joined by spaces; each only when there
/// is something to show.
pub open spec fn meta_parts(path: Seq<Seq<char>>, tags: Seq<Seq<char>>) -> Seq<Seq<char>> {
    (if path.len() > 0 {
        seq!["["@ + joined(path, "/"@) + "]"@]
    } else {
        Seq::empty()
    }) + (if tags.len() > 0 {
        seq![joined(hashed(tags), " "@)]
    } else {
        Seq::empty()
    })
}

/// A result's meta line: its parts joined by two spaces.
pub open spec fn meta_text(path: Seq<Seq<char>>, tags: Seq<Seq<char>>) -> Seq<char> {
    joined(meta_parts(path, tags), "  "@)
}

/// A result's meta line (see `meta_text`).
pub fn meta_line(folder_path: &Vec<String>, tags: &Vec<String>) -> (r: String)
    ensures
        r@ == meta_text(text_views(folder_path@), text_views(tags@)),
{
    let mut parts: Vec<String> = Vec::new();
    if folder_path.len() > 0 {
        let mut p = String::from_str("[");
        let inner = join_texts(folder_path, "/");
        p.append(inner.as_str());
        p.append("]");
        parts.push(p);
    }
    let ghost first = text_views(parts@);
    if tags.len() > 0 {
        let mut marked: Vec<String> = Vec::new();
        for i in 0..tags.len()
            invariant
                marked@.len() == i,
                i <= tags@.len(),
                forall|k: int| 0 <= k < i ==> #[trigger] marked@[k]@ == "#"@ + tags@[k]@,
        {
            let mut t = String::from_str("#");
            t.append(tags[i].as_str());
            marked.push(t);
        }
        assert(text_views(marked@) =~= hashed(text_views(tags@)));
        let joined_tags = join_texts(&marked, " ");
        parts.push(joined_tags);
        assert(text_views(parts@) =~= first.push(joined_tags@));
    }
    assert(text_views(parts@) =~= meta_parts(text_views(folder_path@), text_views(tags@)));
    join_texts(&parts, "  ")
}

/// The description column of a result row: the description wrapped to
/// `width` in at most two lines, then the meta line when it is not empty.
pub open spec fn result_text(
    desc: Seq<char>,
    path: Seq<Seq<char>>,
    tags: Seq<Seq<char>>,
    width: nat,
) -> Seq<Seq<char>> {
    let lines = wrapped(desc, width, 2);
    let meta = meta_text(path, tags);
    if meta.len() > 0 && lines.len() < 3 {
        lines.push(meta)
    } else {
        lines
    }
}

/// The description column of a result row (see `result_text`).
pub fn result_lines(result: &SearchResult, desc_width: usize) -> (r: Vec<String>)
    ensures
        text_views(r@) == result_text(
            result.command.desc@,
            text_views(result.folder_path@),
            result.command@.tags,
            desc_width as nat,
        ),
        r@.len() <= 3,
{
    let mut lines = wrap_text(result.command.desc.as_str(), desc_width, 2);
    let meta = meta_line(&result.folder_path, &result.command.tags);
    if !meta.as_str().is_empty() && lines.len() < 3 {
        let ghost before = text_views(lines@);
        lines.push(meta);
        assert(text_views(lines@) =~= before.push(meta@));
    }
    lines
}

// ───────────────────────────── status line ─────────────────────────────

/// The entry is a folder.
pub open spec fn is_folder_item(i: ItemModel) -> bool {
    i is Folder
}

/// The entry is a command.
pub open spec fn is_command_item(i: ItemModel) -> bool {
    i is Command
}

/// The status line: in browse mode the numbers of folders and commands
/// listed and of commands stored; in search mode the text searched for, the
/// number of results and of commands stored.
pub open spec fn status_line(m: AppModel, results: nat, total: nat) -> Seq<char> {
    match m.mode {
        Mode::Browse => " \u{1F4C1} "@ + decimal(m.items.filter(|i: ItemModel| is_folder_item(i)).len())
            + "  \u{26A1} "@ + decimal(m.items.filter(|i: ItemModel| is_command_item(i)).len())
            + "  |  "@ + decimal(total) + " total commands"@,
        Mode::Search => " query: \""@ + effective(m.search_query, m.search_mode) + "\"  |  "@
            + decimal(results) + " results  |  "@ + decimal(total) + " total"@,
    }
}

/// Appends the decimal notation of `n`.
fn append_number(s: &mut String, n: usize)
    ensures
        final(s)@ == old(s)@ + decimal(n as nat),
{
    let digits = decimal_text(n);
    s.append(string_of(digits.as_slice()).as_str());
}

/// The status line of the browser (see `status_line`).
pub fn status_text(app: &App) -> (r: String)
    ensures
        r@ == status_line(app@, app.search_results@.len(), app.store.commands@.len()),
{
    match app.mode {
        Mode::Browse => {
            let ghost items = app@.items;
            let mut folders: usize = 0;
            let mut commands: usize = 0;
            for i in 0..app.items.len()
                invariant
                    items == app@.items,
                    folders == items.take(i as int).filter(|i: ItemModel| is_folder_item(i)).len(),
                    commands == items.take(i as int).filter(|i: ItemModel| is_command_item(i)).len(),
                    folders + commands == i,
            {
                assert(items.take(i + 1) =~= items.take(i as int).push(items[i as int]));
                proof {
                    items.take(i as int).lemma_filter_push(items[i as int], |i: ItemModel| is_folder_item(i));
                    items.take(i as int).lemma_filter_push(items[i as int], |i: ItemModel| is_command_item(i));
                }
                match &app.items[i] {
                    BrowseItem::Folder(_) => {
                        folders = folders + 1;
                    },
                    BrowseItem::Command(_) => {
                        commands = commands + 1;
                    },
                }
            }
            assert(items.take(items.len() as int) =~= items);
            let mut r = String::from_str(" \u{1F4C1} ");
            append_number(&mut r, folders);
            r.append("  \u{26A1} ");
            append_number(&mut r, commands);
            r.append("  |  ");
            append_number(&mut r, app.store.commands.len());
            r.append(" total commands");
            r
        },
        Mode::Search => {
            let mut r = String::from_str(" query: \"");
            let q = app.effective_query();
            r.append(q.as_str());
            r.append("\"  |  ");
            append_number(&mut r, app.search_results.len());
            r.append(" results  |  ");
            append_number(&mut r, app.store.commands.len());
            r.append(" total");
            r
        },
    }
}

} // verus!
