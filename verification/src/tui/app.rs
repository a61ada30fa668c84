//! The state machine of the terminal browser.
//!
//! In browse mode the screen lists the sub-folders and then the commands of
//! the current folder; the keys 1-9 and 0 pick an entry, Enter picks the
//! highlighted one, `q` and Esc go up a level (and quit at the root), and
//! any other printable key starts a search. In search mode every key edits
//! the query and the results are recomputed; a query that starts with `//`
//! searches for the exact text after the slashes. Picking a command records
//! it as the output, stamps it as used and ends the session.
use vstd::prelude::*;
use crate::search::{
    Searcher, SearchResult, searchable, paths_defined, fuzzy_outcome, exact_outcome, fuzzy_fits,
    fits_matcher, tag_text, check_searchable, check_paths_defined, rfc3339_seconds,
    MAX_PATTERN_CHARS,
};
use crate::store::{
    Store, Folder, Command, FolderModel, CommandModel, folders_under, commands_in, folder_index,
    command_index, lemma_folder_index_from, parent_is, lemma_folder_index_unique, lemma_crumbs_step,
    lemma_root_crumbs,
};
use crate::text::{chars_of, string_of, text_views, joined};

verus! {

// ───────────────────────────── outside calls ─────────────────────────────

/// The form of every text that chrono's `to_rfc3339` writes for a date-time
/// after 1970: at least 25 characters (date, `T`, time and a `+HH:MM` or
/// `-HH:MM` offset); and, unless it starts with `+`, which chrono writes only
/// for years past 9999, an RFC 3339 date-time that `parse_from_rfc3339`
/// reads back.
pub open spec fn clock_text(t: Seq<char>) -> bool {
    &&& t.len() >= 25
    &&& t[0] != '+' ==> rfc3339_seconds(t) is Some
}

/// Trusted: calls chrono's `Local::now().to_rfc3339()`, the current local
/// time as an RFC 3339 text. Which time it is depends on the clock and the
/// time zone; the contract states only the form that chrono's
/// `write_rfc3339` gives every such text (`clock_text`). It does not claim
/// that every result reads back: for a clock past the year 9999 chrono
/// writes a signed five-digit year, which its RFC 3339 parser refuses.
#[verifier::external_body]
fn now_rfc3339() -> (r: String)
    ensures
        clock_text(r@),
{
    chrono::Local::now().to_rfc3339()
}

// ───────────────────────────── data ─────────────────────────────

/// Whether the screen shows the current folder or search results.
#[derive(Clone, Copy, Debug, PartialEq, Eq, Structural)]
pub enum Mode {
    Browse,
    Search,
}

/// How the query is matched: fuzzy, or as exact text (query `//...`).
#[derive(Clone, Copy, Debug, PartialEq, Eq, Structural)]
pub enum SearchMode {
    Fuzzy,
    Exact,
}

/// An entry of the folder listing.
#[derive(Debug)]
pub enum BrowseItem {
    Folder(Folder),
    Command(Command),
}

/// The mathematical value of a listing entry.
pub ghost enum ItemModel {
    Folder(FolderModel),
    Command(CommandModel),
}

impl View for BrowseItem {
    type V = ItemModel;

    open spec fn view(&self) -> ItemModel {
        match self {
            BrowseItem::Folder(f) => ItemModel::Folder(f@),
            BrowseItem::Command(c) => ItemModel::Command(c@),
        }
    }
}

impl Clone for BrowseItem {
    fn clone(&self) -> (r: Self)
        ensures
            r@ == self@,
    {
        match self {
            BrowseItem::Folder(f) => BrowseItem::Folder(f.clone()),
            BrowseItem::Command(c) => BrowseItem::Command(c.clone()),
        }
    }
}

/// A key of the terminal, as far as the browser tells keys apart.
#[derive(Clone, Copy, Debug, PartialEq, Eq, Structural)]
pub enum KeyCode {
    Char(char),
    Up,
    Down,
    Enter,
    Esc,
    Backspace,
    Other,
}

/// A key press: the key and whether Control was held.
#[derive(Clone, Copy, Debug, PartialEq, Eq, Structural)]
pub struct Key {
    pub code: KeyCode,
    pub ctrl: bool,
}

/// Why a browser action failed.
#[derive(Debug)]
pub enum AppError {
    /// No folder has the id `id`.
    FolderNotFound { id: String },
    /// The search that the key asks for cannot run (see `search_fits`).
    SearchUnavailable,
}

impl AppError {
    /// The text of the error.
    pub open spec fn message_text(self) -> Seq<char> {
        match self {
            AppError::FolderNotFound { id } => "Folder not found: "@ + id@,
            AppError::SearchUnavailable => "This search cannot run: a folder chain loops, a field is too long or a score does not fit"@,
        }
    }

    /// The text of the error.
    pub fn message(&self) -> (r: String)
        ensures
            r@ == self.message_text(),
    {
        match self {
            AppError::FolderNotFound { id } => {
                let mut s = String::from_str("Folder not found: ");
                s.append(id.as_str());
                s
            },
            AppError::SearchUnavailable => String::from_str(
                "This search cannot run: a folder chain loops, a field is too long or a score does not fit",
            ),
        }
    }
}

/// The browser's state.
pub struct App {
    pub mode: Mode,
    pub search_mode: SearchMode,
    /// The id of the folder shown; empty at the root.
    pub current_folder: String,
    pub items: Vec<BrowseItem>,
    pub selected_index: usize,
    /// The names of the folders entered, from the root down.
    pub breadcrumb: Vec<String>,
    pub search_query: String,
    pub search_results: Vec<SearchResult>,
    pub search_selected: usize,
    /// The command text picked, if any.
    pub output: Option<String>,
    pub should_quit: bool,
    /// A command was stamped as used, so the store should be written back.
    pub save_pending: bool,
    pub store: Store,
    pub searcher: Searcher,
}

/// The mathematical value of the browser's state, without the store, the
/// search results and the search engine.
#[verifier::ext_equal]
pub ghost struct AppModel {
    pub mode: Mode,
    pub search_mode: SearchMode,
    pub current_folder: Seq<char>,
    pub items: Seq<ItemModel>,
    pub selected_index: usize,
    pub breadcrumb: Seq<Seq<char>>,
    pub search_query: Seq<char>,
    pub search_selected: usize,
    pub output: Option<Seq<char>>,
    pub should_quit: bool,
    pub save_pending: bool,
}

impl View for App {
    type V = AppModel;

    open spec fn view(&self) -> AppModel {
        AppModel {
            mode: self.mode,
            search_mode: self.search_mode,
            current_folder: self.current_folder@,
            items: self.items@.map_values(|i: BrowseItem| i@),
            selected_index: self.selected_index,
            breadcrumb: text_views(self.breadcrumb@),
            search_query: self.search_query@,
            search_selected: self.search_selected,
            output: match self.output {
                Some(s) => Some(s@),
                None => None,
            },
            should_quit: self.should_quit,
            save_pending: self.save_pending,
        }
    }
}

// ───────────────────────────── the rules ─────────────────────────────

/// The listing of the folder `p`: its sub-folders, then its commands, each
/// in store order.
pub open spec fn browse_items(store: Store, p: Seq<char>) -> Seq<ItemModel> {
    folders_under(store.folders@, p).map_values(|f: Folder| ItemModel::Folder(f@))
        + commands_in(store.commands@, p).map_values(|c: Command| ItemModel::Command(c@))
}

/// A highlight position kept within a list of `len` entries.
pub open spec fn clamped(sel: usize, len: nat) -> usize {
    if len > 0 && sel >= len {
        (len - 1) as usize
    } else {
        sel
    }
}

/// Every folder entry of the listing names a folder of the store.
pub open spec fn folders_known(store: Store, items: Seq<ItemModel>) -> bool {
    forall|i: int|
        0 <= i < items.len() ==> (#[trigger] items[i] matches ItemModel::Folder(f) ==> folder_index(
            store.folders@,
            f.id,
        ) is Some)
}

/// `new` is `old` with the listing reloaded for the current folder.
pub open spec fn reloaded(old: AppModel, new: AppModel, store: Store) -> bool {
    let items = browse_items(store, old.current_folder);
    new == AppModel { items, selected_index: clamped(old.selected_index, items.len()), ..old }
}

/// `new` is `old` after entering the folder `id`: the name of the first
/// folder with that id joins the breadcrumb, its listing is shown and its
/// first entry highlighted; nothing changes when no folder has that id.
pub open spec fn entered(old: AppModel, new: AppModel, store: Store, id: Seq<char>) -> bool {
    match folder_index(store.folders@, id) {
        Some(k) => new == AppModel {
            breadcrumb: old.breadcrumb.push(store.folders@[k].name@),
            current_folder: id,
            items: browse_items(store, id),
            selected_index: 0,
            ..old
        },
        None => new == old,
    }
}

/// The folder shown after going up from `current` with the breadcrumb
/// `rest` left: the root when no name is left, else the parent of the
/// current folder (the root when the current folder is unknown).
pub open spec fn parent_folder(store: Store, current: Seq<char>, rest: Seq<Seq<char>>) -> Seq<char> {
    if rest.len() == 0 {
        Seq::empty()
    } else {
        match folder_index(store.folders@, current) {
            Some(k) => store.folders@[k].parent@,
            None => Seq::empty(),
        }
    }
}

/// `new` is `old` after going up a level; at the root this ends the session.
pub open spec fn went_back(old: AppModel, new: AppModel, store: Store) -> bool {
    if old.breadcrumb.len() == 0 {
        new == AppModel { should_quit: true, ..old }
    } else {
        let rest = old.breadcrumb.drop_last();
        let up = parent_folder(store, old.current_folder, rest);
        new == AppModel {
            breadcrumb: rest,
            current_folder: up,
            items: browse_items(store, up),
            selected_index: 0,
            ..old
        }
    }
}

impl App {
    /// The invariant of a running browser: the listing names folders of
    /// the store.
    pub open spec fn wf(self) -> bool {
        folders_known(self.store, self@.items)
    }
}

/// The listing of any folder names folders of the store only.
pub proof fn lemma_listing_known(store: Store, p: Seq<char>)
    ensures
        folders_known(store, browse_items(store, p)),
{
    let fu = folders_under(store.folders@, p);
    let items = browse_items(store, p);
    assert forall|i: int| 0 <= i < items.len() implies (#[trigger] items[i] matches ItemModel::Folder(
        f,
    ) ==> folder_index(store.folders@, f.id) is Some) by {
        if i < fu.len() {
            assert(fu.contains(fu[i]));
            store.folders@.lemma_filter_contains_rev(parent_is(p), fu[i]);
            let k = choose|k: int| 0 <= k < store.folders@.len() && store.folders@[k] == fu[i];
            lemma_folder_index_from(store.folders@, fu[i]@.id, 0);
            assert(store.folders@[k].id@ == fu[i]@.id);
        }
    }
}

impl App {
    /// Reloads the listing of the current folder and keeps the highlight
    /// within it.
    pub fn load_items(&mut self)
        ensures
            reloaded(old(self)@, final(self)@, old(self).store),
            final(self).store == old(self).store,
            final(self).search_results == old(self).search_results,
            folders_known(final(self).store, final(self)@.items),
    {
        let ghost p = self.current_folder@;
        let mut items: Vec<BrowseItem> = Vec::new();
        {
            let folders = self.store.children_folders(self.current_folder.as_str());
            let ghost fu = folders_under(self.store.folders@, p);
            assert(folders@.len() == fu.len()) by {
                assert(folders@.map_values(|f: &Folder| f@).len() == fu.map_values(|f: Folder| f@).len());
            }
            for i in 0..folders.len()
                invariant
                    items@.len() == i,
                    folders@.len() == fu.len(),
                    folders@.map_values(|f: &Folder| f@) == fu.map_values(|f: Folder| f@),
                    forall|k: int| 0 <= k < i ==> #[trigger] items@[k]@ == ItemModel::Folder(fu[k]@),
            {
                assert(folders@.map_values(|f: &Folder| f@)[i as int] == fu.map_values(|f: Folder| f@)[i as int]);
                items.push(BrowseItem::Folder(folders[i].clone()));
            }
        }
        let ghost nf = items@.len();
        {
            let commands = self.store.folder_commands(self.current_folder.as_str());
            let ghost cu = commands_in(self.store.commands@, p);
            let ghost fu = folders_under(self.store.folders@, p);
            assert(commands@.len() == cu.len()) by {
                assert(commands@.map_values(|c: &Command| c@).len() == cu.map_values(|c: Command| c@).len());
            }
            for i in 0..commands.len()
                invariant
                    items@.len() == nf + i,
                    nf == fu.len(),
                    commands@.len() == cu.len(),
                    commands@.map_values(|c: &Command| c@) == cu.map_values(|c: Command| c@),
                    forall|k: int| 0 <= k < nf ==> #[trigger] items@[k]@ == ItemModel::Folder(fu[k]@),
                    forall|k: int| 0 <= k < i ==> #[trigger] items@[nf + k]@ == ItemModel::Command(cu[k]@),
            {
                assert(commands@.map_values(|c: &Command| c@)[i as int] == cu.map_values(|c: Command| c@)[i as int]);
                items.push(BrowseItem::Command(commands[i].clone()));
            }
            let ghost a = fu.map_values(|f: Folder| ItemModel::Folder(f@));
            let ghost b = cu.map_values(|c: Command| ItemModel::Command(c@));
            assert forall|k: int| 0 <= k < items@.len() implies #[trigger] items@[k]@ == (a + b)[k] by {
                if k >= nf {
                    assert(items@[nf + (k - nf)]@ == ItemModel::Command(cu[k - nf]@));
                }
            }
            assert(items@.map_values(|i: BrowseItem| i@) =~= browse_items(self.store, p));
        }
        self.items = items;
        if !self.items.is_empty() && self.selected_index >= self.items.len() {
            self.selected_index = self.items.len() - 1;
        }
        proof {
            lemma_listing_known(self.store, p);
        }
    }
}

/// `new` is `old` after the command `cmd` was picked: it becomes the
/// output and the session ends with the store to be written back.
pub open spec fn confirmed(old: AppModel, new: AppModel, cmd: CommandModel) -> bool {
    new == AppModel { output: Some(cmd.cmd), should_quit: true, save_pending: true, ..old }
}

/// `new` is `old` with the first command whose id is `id` (if any) stamped
/// as last used at `now`; nothing else changes.
pub open spec fn stamped(old: Store, new: Store, id: u32, now: Seq<char>) -> bool {
    &&& new.folders == old.folders
    &&& new.commands@.len() == old.commands@.len()
    &&& forall|j: int|
        0 <= j < old.commands@.len() && command_index(old.commands@, id) != Some(j)
            ==> #[trigger] new.commands@[j]@ == old.commands@[j]@
    &&& command_index(old.commands@, id) matches Some(k) ==> new.commands@[k]@ == CommandModel {
        last_used: now,
        ..old.commands@[k]@
    }
}

/// `new` is `old` with the first command whose id is `id` stamped as used
/// at the time of the call, written as the clock gives it (`clock_text`).
pub open spec fn stamped_then(old: Store, new: Store, id: u32) -> bool {
    exists|now: Seq<char>| clock_text(now) && stamped(old, new, id, now)
}

/// The query asks for an exact search: it starts with `//`.
pub open spec fn slashed(q: Seq<char>) -> bool {
    q.len() >= 2 && q[0] == '/' && q[1] == '/'
}

/// The search mode that a query selects.
pub open spec fn mode_for(q: Seq<char>) -> SearchMode {
    if slashed(q) {
        SearchMode::Exact
    } else {
        SearchMode::Fuzzy
    }
}

/// The query without all its leading `//` pairs.
pub open spec fn strip_slashes(q: Seq<char>) -> Seq<char>
    decreases q.len(),
{
    if slashed(q) {
        strip_slashes(q.skip(2))
    } else {
        q
    }
}

/// The text searched for: without the leading `//` pairs in exact mode,
/// and without a single leading `/` (the key that opens a search) in fuzzy
/// mode.
pub open spec fn effective(q: Seq<char>, mode: SearchMode) -> Seq<char> {
    match mode {
        SearchMode::Exact => strip_slashes(q),
        SearchMode::Fuzzy => if q.len() > 0 && q[0] == '/' {
            q.skip(1)
        } else {
            q
        },
    }
}

/// `results` is what a search for the query `q` lists.
pub open spec fn search_outcome(store: Store, q: Seq<char>, results: Seq<SearchResult>) -> bool {
    match mode_for(q) {
        SearchMode::Exact => exact_outcome(store, effective(q, SearchMode::Exact), results),
        SearchMode::Fuzzy => fuzzy_outcome(store, effective(q, SearchMode::Fuzzy), results),
    }
}

/// A search for the query `q` can run: every folder path is defined and, in
/// fuzzy mode, every command fits the matcher, the text searched for is
/// within nucleo-matcher's pattern limit and, when it is not empty, every
/// command's ranking score fits in `u32`.
pub open spec fn search_fits(store: Store, q: Seq<char>) -> bool {
    &&& paths_defined(store)
    &&& mode_for(q) == SearchMode::Fuzzy ==> {
        let e = effective(q, SearchMode::Fuzzy);
        &&& searchable(store)
        &&& e.len() <= MAX_PATTERN_CHARS
        &&& e.len() > 0 ==> fuzzy_fits(store, e)
    }
}

/// `new` is `old` with the search recomputed for its query: `results` are
/// the new results and the highlight is kept within them.
pub open spec fn refreshed(old: AppModel, new: AppModel, store: Store, results: Seq<SearchResult>) -> bool {
    &&& search_outcome(store, old.search_query, results)
    &&& new == AppModel {
        search_mode: mode_for(old.search_query),
        search_selected: clamped(old.search_selected, results.len()),
        ..old
    }
}

/// The key is Ctrl+C, which always ends the session without output.
pub open spec fn ctrl_c(key: Key) -> bool {
    key.ctrl && key.code == KeyCode::Char('c')
}

/// The entry that a digit key picks: 1-9 the first nine, 0 the tenth.
pub open spec fn digit_slot(c: char) -> Option<usize> {
    match c {
        '1' => Some(0),
        '2' => Some(1),
        '3' => Some(2),
        '4' => Some(3),
        '5' => Some(4),
        '6' => Some(5),
        '7' => Some(6),
        '8' => Some(7),
        '9' => Some(8),
        '0' => Some(9),
        _ => None,
    }
}

/// The digit keys pick entries in the order of their labels: `1` to `9`
/// pick the first nine (the digit's value less one), `0` picks the tenth,
/// no other character picks one, and no two keys pick the same entry.
pub proof fn lemma_digit_slots()
    ensures
        forall|c: char|
            '1' <= c <= '9' ==> #[trigger] digit_slot(c) == Some((c as int - '1' as int) as usize),
        digit_slot('0') == Some(9usize),
        forall|c: char| !('0' <= c <= '9') ==> #[trigger] digit_slot(c) is None,
        forall|a: char, b: char|
            #![trigger digit_slot(a), digit_slot(b)]
            digit_slot(a) is Some && digit_slot(a) == digit_slot(b) ==> a == b,
{
}

/// The highlight after the Up key.
pub open spec fn moved_up(sel: usize) -> usize {
    if sel > 0 {
        (sel - 1) as usize
    } else {
        sel
    }
}

/// The highlight after the Down key in a list of `len` entries.
pub open spec fn moved_down(sel: usize, len: nat) -> usize {
    if sel + 1 < len {
        (sel + 1) as usize
    } else {
        sel
    }
}

/// `new` (with the store `new_store`) follows from picking the command
/// `cmd`: it is confirmed and stamped as used at some time.
pub open spec fn picked_command(
    old: AppModel,
    new: AppModel,
    store: Store,
    new_store: Store,
    cmd: CommandModel,
) -> bool {
    &&& confirmed(old, new, cmd)
    &&& stamped_then(store, new_store, cmd.id)
}

/// `new` (with the store `new_store`) follows from picking the listing
/// entry `item`: a folder is entered, a command picked.
pub open spec fn picked_entry(
    old: AppModel,
    new: AppModel,
    store: Store,
    new_store: Store,
    item: ItemModel,
) -> bool {
    match item {
        ItemModel::Folder(f) => entered(old, new, store, f.id) && new_store == store,
        ItemModel::Command(c) => picked_command(old, new, store, new_store, c),
    }
}

/// One key in browse mode takes the state `old` (with `store` and
/// `results`) to `new` (with `new_store` and `new_results`).
pub open spec fn browse_step(
    old: AppModel,
    new: AppModel,
    store: Store,
    new_store: Store,
    results: Seq<SearchResult>,
    new_results: Seq<SearchResult>,
    key: Key,
) -> bool {
    if ctrl_c(key) {
        new == AppModel { should_quit: true, ..old } && new_store == store && new_results == results
    } else {
        match key.code {
            KeyCode::Char(ch) => if digit_slot(ch) is Some {
                let i = digit_slot(ch).unwrap();
                &&& new_results == results
                &&& if i < old.items.len() {
                    picked_entry(old, new, store, new_store, old.items[i as int])
                } else {
                    new == old && new_store == store
                }
            } else if ch == 'q' {
                went_back(old, new, store) && new_store == store && new_results == results
            } else {
                &&& new_store == store
                &&& refreshed(
                    AppModel {
                        search_query: old.search_query.push(ch),
                        mode: Mode::Search,
                        search_selected: 0,
                        ..old
                    },
                    new,
                    store,
                    new_results,
                )
            },
            KeyCode::Up => new == AppModel { selected_index: moved_up(old.selected_index), ..old }
                && new_store == store && new_results == results,
            KeyCode::Down => new == AppModel {
                selected_index: moved_down(old.selected_index, old.items.len()),
                ..old
            } && new_store == store && new_results == results,
            KeyCode::Enter => {
                &&& new_results == results
                &&& if old.selected_index < old.items.len() {
                    picked_entry(old, new, store, new_store, old.items[old.selected_index as int])
                } else {
                    new == old && new_store == store
                }
            },
            KeyCode::Esc => went_back(old, new, store) && new_store == store && new_results
                == results,
            _ => new == old && new_store == store && new_results == results,
        }
    }
}

/// One key in search mode takes the state `old` (with `store` and
/// `results`) to `new` (with `new_store` and `new_results`).
pub open spec fn search_step(
    old: AppModel,
    new: AppModel,
    store: Store,
    new_store: Store,
    results: Seq<SearchResult>,
    new_results: Seq<SearchResult>,
    key: Key,
) -> bool {
    if ctrl_c(key) {
        new == AppModel { should_quit: true, ..old } && new_store == store && new_results == results
    } else {
        match key.code {
            KeyCode::Char(ch) => if digit_slot(ch) is Some {
                let i = digit_slot(ch).unwrap();
                &&& new_results == results
                &&& if i < results.len() {
                    picked_command(old, new, store, new_store, results[i as int].command@)
                } else {
                    new == old && new_store == store
                }
            } else {
                &&& new_store == store
                &&& refreshed(
                    AppModel { search_query: old.search_query.push(ch), ..old },
                    new,
                    store,
                    new_results,
                )
            },
            KeyCode::Up => new == AppModel { search_selected: moved_up(old.search_selected), ..old }
                && new_store == store && new_results == results,
            KeyCode::Down => new == AppModel {
                search_selected: moved_down(old.search_selected, results.len()),
                ..old
            } && new_store == store && new_results == results,
            KeyCode::Enter => {
                &&& new_results == results
                &&& if old.search_selected < results.len() {
                    picked_command(old, new, store, new_store, results[old.search_selected as int].command@)
                } else {
                    new == old && new_store == store
                }
            },
            KeyCode::Esc => {
                &&& new == AppModel {
                    search_query: Seq::empty(),
                    mode: Mode::Browse,
                    search_selected: 0,
                    ..old
                }
                &&& new_store == store
                &&& new_results.len() == 0
            },
            KeyCode::Backspace => {
                let q = if old.search_query.len() > 0 {
                    old.search_query.drop_last()
                } else {
                    old.search_query
                };
                &&& new_store == store
                &&& if q.len() > 0 {
                    refreshed(AppModel { search_query: q, ..old }, new, store, new_results)
                } else {
                    &&& new == AppModel {
                        search_query: q,
                        mode: Mode::Browse,
                        search_mode: SearchMode::Fuzzy,
                        search_selected: 0,
                        ..old
                    }
                    &&& new_results.len() == 0
                }
            },
            _ => new == old && new_store == store && new_results == results,
        }
    }
}

/// The state of a running browser agrees with the store: the breadcrumb is
/// the store's breadcrumb of the current folder, the listing is that of the
/// current folder, the highlight lies within it, the browser is in search
/// mode exactly when the query is not empty, and in search mode the search
/// mode is the one the query selects.
pub open spec fn consistent(m: AppModel, store: Store) -> bool {
    &&& m.breadcrumb == store.crumbs(m.current_folder)
    &&& m.items == browse_items(store, m.current_folder)
    &&& m.items.len() == 0 || m.selected_index < m.items.len()
    &&& (m.mode == Mode::Search) == (m.search_query.len() > 0)
    &&& m.mode == Mode::Search ==> m.search_mode == mode_for(m.search_query)
}

/// Entering a folder of the listing keeps the breadcrumb that of the folder
/// shown (picking a command ends the session).
proof fn lemma_enter_keeps_breadcrumb(
    old: AppModel,
    new: AppModel,
    store: Store,
    new_store: Store,
    i: int,
)
    requires
        consistent(old, store),
        store.folders_sound(),
        0 <= i < old.items.len(),
        picked_entry(old, new, store, new_store, old.items[i]),
        !new.should_quit,
    ensures
        new.breadcrumb == store.crumbs(new.current_folder),
        new_store == store,
{
    let cur = old.current_folder;
    let fs = store.folders@;
    let fu = folders_under(fs, cur);
    let cu = commands_in(store.commands@, cur);
    if i < fu.len() {
        assert(old.items[i] == ItemModel::Folder(fu[i]@));
        assert(fu.contains(fu[i]));
        fs.lemma_filter_contains_rev(parent_is(cur), fu[i]);
        let j = choose|j: int| 0 <= j < fs.len() && fs[j] == fu[i];
        fs.lemma_filter_pred(parent_is(cur), i);
        lemma_folder_index_unique(fs, j);
        lemma_crumbs_step(store, j);
        assert(fs[j].parent@ == cur);
        if cur.len() == 0 {
            lemma_root_crumbs(store);
            assert(cur =~= Seq::<char>::empty());
            assert(Seq::<Seq<char>>::empty().push(fs[j].name@) =~= seq![fs[j].name@]);
        }
    } else {
        assert(old.items[i] == ItemModel::Command(cu[i - fu.len()]@));
    }
}

/// Going up keeps the breadcrumb that of the folder shown.
proof fn lemma_back_keeps_breadcrumb(old: AppModel, new: AppModel, store: Store)
    requires
        old.breadcrumb == store.crumbs(old.current_folder),
        store.folders_sound(),
        went_back(old, new, store),
        !new.should_quit,
    ensures
        new.breadcrumb == store.crumbs(new.current_folder),
{
    let cur = old.current_folder;
    let fs = store.folders@;
    lemma_folder_index_from(fs, cur, 0);
    match folder_index(fs, cur) {
        None => {
            assert(Seq::<Seq<char>>::empty().reverse() =~= Seq::<Seq<char>>::empty());
        },
        Some(k) => {
            lemma_crumbs_step(store, k);
            let p = fs[k].parent@;
            lemma_root_crumbs(store);
            if p.len() == 0 {
                assert(seq![fs[k].name@].drop_last() =~= Seq::<Seq<char>>::empty());
            } else {
                assert(store.crumbs(p).push(fs[k].name@).drop_last() =~= store.crumbs(p));
            }
        },
    }
}

/// A key that does not end the session keeps the browser consistent with
/// the store, and leaves the store as it is.
pub proof fn lemma_step_keeps_consistent(
    old: AppModel,
    new: AppModel,
    store: Store,
    new_store: Store,
    results: Seq<SearchResult>,
    new_results: Seq<SearchResult>,
    key: Key,
)
    requires
        consistent(old, store),
        store.folders_sound(),
        key_step(old, new, store, new_store, results, new_results, key),
        !new.should_quit,
    ensures
        consistent(new, new_store),
        new_store == store,
{
    if old.mode == Mode::Browse {
        assert(old.search_query.len() == 0);
        if !ctrl_c(key) {
            match key.code {
                KeyCode::Char(ch) => {
                    if digit_slot(ch) is Some {
                        let i = digit_slot(ch).unwrap() as int;
                        if i < old.items.len() {
                            lemma_enter_keeps_breadcrumb(old, new, store, new_store, i);
                        }
                    } else if ch == 'q' {
                        lemma_back_keeps_breadcrumb(old, new, store);
                    }
                },
                KeyCode::Enter => {
                    if old.selected_index < old.items.len() {
                        lemma_enter_keeps_breadcrumb(
                            old,
                            new,
                            store,
                            new_store,
                            old.selected_index as int,
                        );
                    }
                },
                KeyCode::Esc => {
                    lemma_back_keeps_breadcrumb(old, new, store);
                },
                _ => {},
            }
        }
    }
}

/// Over any run of keys from a consistent state, every state reached before
/// the session ends is consistent with the store, which stays as it was.
pub proof fn lemma_run_keeps_consistent(
    ms: Seq<AppModel>,
    stores: Seq<Store>,
    results: Seq<Seq<SearchResult>>,
    keys: Seq<Key>,
)
    requires
        ms.len() == keys.len() + 1,
        stores.len() == ms.len(),
        results.len() == ms.len(),
        consistent(ms[0], stores[0]),
        stores[0].folders_sound(),
        forall|k: int|
            0 <= k < keys.len() ==> key_step(
                #[trigger] ms[k],
                ms[k + 1],
                stores[k],
                stores[k + 1],
                results[k],
                results[k + 1],
                keys[k],
            ),
        forall|k: int| 0 <= k < ms.len() ==> !(#[trigger] ms[k]).should_quit,
    ensures
        forall|k: int| 0 <= k < ms.len() ==> consistent(#[trigger] ms[k], stores[k]) && stores[k] == stores[0],
    decreases keys.len(),
{
    if keys.len() > 0 {
        let n = keys.len() as int;
        lemma_run_keeps_consistent(ms.drop_last(), stores.drop_last(), results.drop_last(), keys.drop_last());
        assert(ms.drop_last()[n - 1] == ms[n - 1]);
        assert(consistent(ms[n - 1], stores[n - 1]));
        assert(key_step(ms[n - 1], ms[n], stores[n - 1], stores[n], results[n - 1], results[n], keys[n - 1]));
        lemma_step_keeps_consistent(
            ms[n - 1],
            ms[n],
            stores[n - 1],
            stores[n],
            results[n - 1],
            results[n],
            keys[n - 1],
        );
        assert forall|k: int| 0 <= k < ms.len() implies consistent(#[trigger] ms[k], stores[k]) && stores[k]
            == stores[0] by {
            if k < n {
                assert(ms.drop_last()[k] == ms[k]);
                assert(stores.drop_last()[k] == stores[k]);
            }
        }
    }
}

/// In browse mode the key `0` picks the tenth entry of the listing, and in
/// search mode the tenth result.
pub proof fn lemma_zero_picks_tenth(
    old: AppModel,
    new: AppModel,
    store: Store,
    new_store: Store,
    results: Seq<SearchResult>,
    new_results: Seq<SearchResult>,
)
    requires
        key_step(old, new, store, new_store, results, new_results, Key { code: KeyCode::Char('0'), ctrl: false }),
    ensures
        old.mode == Mode::Browse && old.items.len() >= 10 ==> picked_entry(old, new, store, new_store, old.items[9]),
        old.mode == Mode::Search && results.len() >= 10 ==> picked_command(old, new, store, new_store, results[9].command@),
{
}

/// Stamping a command as used keeps every command searchable.
pub proof fn lemma_stamp_keeps_searchable(old: Store, new: Store, id: u32, now: Seq<char>)
    requires
        stamped(old, new, id, now),
    ensures
        searchable(old) ==> searchable(new),
{
    if searchable(old) {
        assert forall|i: int| 0 <= i < new.commands@.len() implies new.chain_ends(
            #[trigger] new.commands@[i].folder@,
        ) by {
            assert(new.commands@[i]@.folder == old.commands@[i]@.folder);
            assert(old.chain_ends(old.commands@[i].folder@));
        }
        assert forall|i: int| 0 <= i < new.commands@.len() implies fits_matcher(
            #[trigger] new.commands@[i],
        ) by {
            assert(fits_matcher(old.commands@[i]));
            assert(tag_text(new.commands@[i]) == joined(new.commands@[i]@.tags, " "@));
            assert(tag_text(old.commands@[i]) == joined(old.commands@[i]@.tags, " "@));
        }
    }
}

/// Going up from a folder entered from the folder shown undoes the entering:
/// the same folder, breadcrumb and listing are shown again (when the
/// breadcrumb is empty only at the root, as in a running browser).
pub proof fn lemma_back_undoes_enter(
    a: AppModel,
    b: AppModel,
    c: AppModel,
    store: Store,
    id: Seq<char>,
)
    requires
        entered(a, b, store, id),
        went_back(b, c, store),
        (folder_index(store.folders@, id) matches Some(k) && store.folders@[k].parent@
            == a.current_folder),
        a.breadcrumb.len() == 0 ==> a.current_folder.len() == 0,
    ensures
        c == (AppModel { items: browse_items(store, a.current_folder), selected_index: 0, ..a }),
{
    let k = folder_index(store.folders@, id).unwrap();
    assert(b.breadcrumb.drop_last() =~= a.breadcrumb);
    if a.breadcrumb.len() == 0 {
        assert(a.current_folder =~= Seq::<char>::empty());
    }
}

impl App {
    /// A browser showing the root folder of `store`.
    pub fn new(store: Store) -> (app: App)
        ensures
            app@ == (AppModel {
                mode: Mode::Browse,
                search_mode: SearchMode::Fuzzy,
                current_folder: Seq::empty(),
                items: browse_items(store, Seq::empty()),
                selected_index: 0,
                breadcrumb: Seq::empty(),
                search_query: Seq::empty(),
                search_selected: 0,
                output: None,
                should_quit: false,
                save_pending: false,
            }),
            app.store == store,
            app.search_results@.len() == 0,
            app.wf(),
            store.folders_sound() ==> consistent(app@, store),
    {
        let mut app = App {
            mode: Mode::Browse,
            search_mode: SearchMode::Fuzzy,
            current_folder: String::new(),
            items: Vec::new(),
            selected_index: 0,
            breadcrumb: Vec::new(),
            search_query: String::new(),
            search_results: Vec::new(),
            search_selected: 0,
            output: None,
            should_quit: false,
            save_pending: false,
            store,
            searcher: Searcher::new(),
        };
        app.load_items();
        assert(text_views(app.breadcrumb@) =~= Seq::<Seq<char>>::empty());
        proof {
            if app.store.folders_sound() {
                lemma_root_crumbs(app.store);
            }
        }
        app
    }

    /// Enters the folder `folder_id`: its name is added to the breadcrumb,
    /// its listing is shown and the first entry highlighted. Fails, changing
    /// nothing, when no folder has that id.
    pub fn enter_folder(&mut self, folder_id: String) -> (r: Result<(), AppError>)
        ensures
            entered(old(self)@, final(self)@, old(self).store, folder_id@),
            r is Err <==> folder_index(old(self).store.folders@, folder_id@) is None,
            r matches Err(e) ==> e == (AppError::FolderNotFound { id: folder_id }),
            final(self).store == old(self).store,
            final(self).search_results == old(self).search_results,
            r is Ok ==> folders_known(final(self).store, final(self)@.items),
            r is Err ==> final(self).items == old(self).items,
    {
        match self.store.find_folder(&folder_id) {
            None => Err(AppError::FolderNotFound { id: folder_id }),
            Some(k) => {
                let name = self.store.folders[k].name.clone();
                let ghost before = text_views(self.breadcrumb@);
                self.breadcrumb.push(name);
                assert(text_views(self.breadcrumb@) =~= before.push(self.store.folders@[k as int].name@));
                self.current_folder = folder_id;
                self.selected_index = 0;
                self.load_items();
                Ok(())
            },
        }
    }

    /// Goes up a level: drops the last breadcrumb name and shows the parent
    /// folder (the root when no name is left); at the root it ends the
    /// session instead.
    pub fn go_back(&mut self) -> (r: Result<(), AppError>)
        ensures
            went_back(old(self)@, final(self)@, old(self).store),
            r is Ok,
            final(self).store == old(self).store,
            final(self).search_results == old(self).search_results,
            old(self).breadcrumb@.len() == 0 ==> final(self).items == old(self).items,
            old(self).breadcrumb@.len() > 0 ==> folders_known(final(self).store, final(self)@.items),
    {
        if self.breadcrumb.is_empty() {
            self.should_quit = true;
            return Ok(());
        }
        let ghost before = text_views(self.breadcrumb@);
        self.breadcrumb.pop();
        assert(text_views(self.breadcrumb@) =~= before.drop_last());
        if self.breadcrumb.is_empty() {
            self.current_folder = String::new();
        } else {
            let parent = match self.store.find_folder(&self.current_folder) {
                Some(k) => self.store.folders[k].parent.clone(),
                None => String::new(),
            };
            self.current_folder = parent;
        }
        self.selected_index = 0;
        self.load_items();
        Ok(())
    }

    /// Picks the command `cmd` at the time `now`: its text becomes the
    /// output, the first stored command with its id is stamped as used at
    /// `now`, and the session ends with the store to be written back.
    pub fn confirm_command_at(&mut self, cmd: Command, now: String) -> (r: Result<(), AppError>)
        ensures
            confirmed(old(self)@, final(self)@, cmd@),
            stamped(old(self).store, final(self).store, cmd.id, now@),
            r is Ok,
            final(self).search_results == old(self).search_results,
            final(self).items == old(self).items,
            old(self).wf() ==> final(self).wf(),
    {
        let ghost before = self.store;
        self.output = Some(cmd.cmd.clone());
        match self.store.command_position(cmd.id) {
            Some(k) => {
                let mut c = self.store.commands[k].clone();
                c.last_used = now;
                self.store.commands.set(k, c);
            },
            None => {},
        }
        self.save_pending = true;
        self.should_quit = true;
        proof {
            lemma_stamp_keeps_searchable(before, self.store, cmd.id, now@);
        }
        Ok(())
    }

    /// Picks the command `cmd` now (see `confirm_command_at`).
    pub fn confirm_command(&mut self, cmd: Command) -> (r: Result<(), AppError>)
        ensures
            confirmed(old(self)@, final(self)@, cmd@),
            stamped_then(old(self).store, final(self).store, cmd.id),
            r is Ok,
            final(self).search_results == old(self).search_results,
            final(self).items == old(self).items,
            old(self).wf() ==> final(self).wf(),
    {
        let now = now_rfc3339();
        let ghost at = now@;
        let ghost before = self.store;
        let ghost id = cmd.id;
        let r = self.confirm_command_at(cmd, now);
        assert(clock_text(at) && stamped(before, self.store, id, at));
        r
    }

    /// Sets the search mode from the query: exact when it starts with `//`.
    pub fn update_search_mode(&mut self)
        ensures
            final(self)@ == (AppModel { search_mode: mode_for(old(self)@.search_query), ..old(self)@ }),
            final(self).store == old(self).store,
            final(self).search_results == old(self).search_results,
            final(self).items == old(self).items,
    {
        self.search_mode = mode_of(self.search_query.as_str());
    }

    /// The text to search for (see `effective`).
    pub fn effective_query(&self) -> (r: String)
        ensures
            r@ == effective(self.search_query@, self.search_mode),
    {
        effective_text(self.search_query.as_str(), self.search_mode)
    }

    /// Recomputes the search results for the query, in the mode the query
    /// selects, and keeps the highlight within them.
    pub fn refresh_search(&mut self) -> (r: Result<(), AppError>)
        requires
            old(self).wf(),
            search_fits(old(self).store, old(self).search_query@),
        ensures
            refreshed(old(self)@, final(self)@, old(self).store, final(self).search_results@),
            r is Ok,
            final(self).store == old(self).store,
            final(self).items == old(self).items,
            final(self).wf(),
    {
        self.update_search_mode();
        let q = self.effective_query();
        let results = match self.search_mode {
            SearchMode::Fuzzy => self.searcher.fuzzy_search(q.as_str(), &self.store),
            SearchMode::Exact => self.searcher.exact_search(q.as_str(), &self.store),
        };
        self.search_results = results;
        if !self.search_results.is_empty() && self.search_selected >= self.search_results.len() {
            self.search_selected = self.search_results.len() - 1;
        }
        Ok(())
    }
}

/// The search mode that a query selects (see `mode_for`).
fn mode_of(q: &str) -> (r: SearchMode)
    ensures
        r == mode_for(q@),
{
    let c = chars_of(q);
    if c.len() >= 2 && c[0] == '/' && c[1] == '/' {
        SearchMode::Exact
    } else {
        SearchMode::Fuzzy
    }
}

/// The characters of `q` from position `i` on.
fn rest_of(q: &Vec<char>, i: usize) -> (r: String)
    requires
        i <= q@.len(),
    ensures
        r@ == q@.skip(i as int),
{
    let n = q.len();
    let mut rest: Vec<char> = Vec::new();
    let mut j: usize = i;
    while j < n
        invariant
            n == q@.len(),
            i <= j <= n,
            rest@ == q@.subrange(i as int, j as int),
        decreases n - j,
    {
        rest.push(q[j]);
        j = j + 1;
        assert(rest@ =~= q@.subrange(i as int, j as int));
    }
    assert(rest@ =~= q@.skip(i as int));
    string_of(rest.as_slice())
}

/// The text searched for with the query `q` in the mode `mode` (see
/// `effective`).
pub fn effective_text(q: &str, mode: SearchMode) -> (r: String)
    ensures
        r@ == effective(q@, mode),
{
    let c = chars_of(q);
    let n = c.len();
    match mode {
        SearchMode::Fuzzy => {
            if n > 0 && c[0] == '/' {
                rest_of(&c, 1)
            } else {
                String::from_str(q)
            }
        },
        SearchMode::Exact => {
            let mut i: usize = 0;
            assert(c@.skip(0) =~= c@);
            while n - i >= 2 && c[i] == '/' && c[i + 1] == '/'
                invariant
                    n == c@.len(),
                    i <= n,
                    strip_slashes(c@.skip(i as int)) == strip_slashes(c@),
                decreases n - i,
            {
                assert(c@.skip(i as int).skip(2) =~= c@.skip(i + 2));
                i = i + 2;
            }
            rest_of(&c, i)
        },
    }
}

/// The key lets the browser go on: the search it runs, if any, can run.
pub open spec fn key_runs(m: AppModel, store: Store, key: Key) -> bool {
    match searched_query(m, key) {
        Some(q) => search_fits(store, q),
        None => true,
    }
}

/// The query that a key makes the browser search for, if it runs a search:
/// a printable key that is no digit (nor `q` in browse mode) appends to the
/// query, and Backspace in search mode drops its last character.
pub open spec fn searched_query(m: AppModel, key: Key) -> Option<Seq<char>> {
    if ctrl_c(key) {
        None
    } else {
        match key.code {
            KeyCode::Char(ch) => if digit_slot(ch) is None && !(m.mode == Mode::Browse && ch == 'q') {
                Some(m.search_query.push(ch))
            } else {
                None
            },
            KeyCode::Backspace => if m.mode == Mode::Search {
                Some(
                    if m.search_query.len() > 0 {
                        m.search_query.drop_last()
                    } else {
                        m.search_query
                    },
                )
            } else {
                None
            },
            _ => None,
        }
    }
}

/// One key takes the state `old` (with `store` and `results`) to `new`
/// (with `new_store` and `new_results`), by the rules of its mode.
pub open spec fn key_step(
    old: AppModel,
    new: AppModel,
    store: Store,
    new_store: Store,
    results: Seq<SearchResult>,
    new_results: Seq<SearchResult>,
    key: Key,
) -> bool {
    match old.mode {
        Mode::Browse => browse_step(old, new, store, new_store, results, new_results, key),
        Mode::Search => search_step(old, new, store, new_store, results, new_results, key),
    }
}

/// The entry that a digit key picks (see `digit_slot`).
fn slot_of(c: char) -> (r: Option<usize>)
    ensures
        r == digit_slot(c),
{
    match c {
        '1' => Some(0),
        '2' => Some(1),
        '3' => Some(2),
        '4' => Some(3),
        '5' => Some(4),
        '6' => Some(5),
        '7' => Some(6),
        '8' => Some(7),
        '9' => Some(8),
        '0' => Some(9),
        _ => None,
    }
}

impl App {
    /// Handles one key press (see `browse_step` and `search_step`).
    pub fn handle_key(&mut self, key: Key) -> (r: Result<(), AppError>)
        requires
            old(self).wf(),
            key_runs(old(self)@, old(self).store, key),
        ensures
            r is Ok,
            final(self).wf(),
            old(self).mode == Mode::Browse ==> browse_step(
                old(self)@,
                final(self)@,
                old(self).store,
                final(self).store,
                old(self).search_results@,
                final(self).search_results@,
                key,
            ),
            old(self).mode == Mode::Search ==> search_step(
                old(self)@,
                final(self)@,
                old(self).store,
                final(self).store,
                old(self).search_results@,
                final(self).search_results@,
                key,
            ),
    {
        match self.mode {
            Mode::Browse => self.handle_key_browse(key),
            Mode::Search => self.handle_key_search(key),
        }
    }

    /// Handles one key press as `handle_key` does when the search that the
    /// key runs, if any, can run (`key_runs`); otherwise refuses the key with
    /// `SearchUnavailable` and changes nothing.
    pub fn press(&mut self, key: Key) -> (r: Result<(), AppError>)
        requires
            old(self).wf(),
        ensures
            final(self).wf(),
            key_runs(old(self)@, old(self).store, key) ==> r is Ok && key_step(
                old(self)@,
                final(self)@,
                old(self).store,
                final(self).store,
                old(self).search_results@,
                final(self).search_results@,
                key,
            ),
            !key_runs(old(self)@, old(self).store, key) ==> (r matches Err(AppError::SearchUnavailable)
                && final(self)@ == old(self)@ && final(self).store == old(self).store
                && final(self).search_results == old(self).search_results),
    {
        match self.searched_query_of(key) {
            Some(q) => {
                if !self.search_fits_check(&q) {
                    return Err(AppError::SearchUnavailable);
                }
            },
            None => {},
        }
        self.handle_key(key)
    }

    /// The query that the key makes the browser search for (see
    /// `searched_query`).
    fn searched_query_of(&self, key: Key) -> (r: Option<String>)
        ensures
            match r {
                Some(q) => searched_query(self@, key) == Some(q@),
                None => searched_query(self@, key) is None,
            },
    {
        if key.ctrl && key.code == KeyCode::Char('c') {
            return None;
        }
        match key.code {
            KeyCode::Char(ch) => {
                if slot_of(ch).is_some() || (self.mode == Mode::Browse && ch == 'q') {
                    return None;
                }
                let mut q = chars_of(self.search_query.as_str());
                q.push(ch);
                Some(string_of(q.as_slice()))
            },
            KeyCode::Backspace => {
                if self.mode == Mode::Browse {
                    return None;
                }
                let mut q = chars_of(self.search_query.as_str());
                if q.len() > 0 {
                    q.pop();
                }
                Some(string_of(q.as_slice()))
            },
            _ => None,
        }
    }

    /// Whether a search for the query `q` can run (see `search_fits`).
    fn search_fits_check(&mut self, q: &String) -> (r: bool)
        ensures
            r == search_fits(old(self).store, q@),
            final(self)@ == old(self)@,
            final(self).store == old(self).store,
            final(self).search_results == old(self).search_results,
            final(self).items == old(self).items,
    {
        if !check_paths_defined(&self.store) {
            return false;
        }
        if mode_of(q.as_str()) == SearchMode::Exact {
            return true;
        }
        if !check_searchable(&self.store) {
            return false;
        }
        let e = effective_text(q.as_str(), SearchMode::Fuzzy);
        if chars_of(e.as_str()).len() > MAX_PATTERN_CHARS {
            return false;
        }
        if e.as_str().is_empty() {
            return true;
        }
        self.searcher.fuzzy_fits_check(e.as_str(), &self.store)
    }

    /// Picks the listing entry at `idx`, if there is one.
    fn pick_entry(&mut self, idx: usize) -> (r: Result<(), AppError>)
        requires
            old(self).wf(),
        ensures
            r is Ok,
            final(self).wf(),
            final(self).search_results == old(self).search_results,
            idx < old(self)@.items.len() ==> picked_entry(
                old(self)@,
                final(self)@,
                old(self).store,
                final(self).store,
                old(self)@.items[idx as int],
            ),
            idx >= old(self)@.items.len() ==> final(self)@ == old(self)@ && final(self).store == old(
                self,
            ).store,
    {
        if idx >= self.items.len() {
            return Ok(());
        }
        let item = self.items[idx].clone();
        let ghost m = item@;
        assert(self@.items[idx as int] == m);
        match item {
            BrowseItem::Folder(f) => {
                assert(m == ItemModel::Folder(f@));
                self.enter_folder(f.id)
            },
            BrowseItem::Command(c) => {
                assert(m == ItemModel::Command(c@));
                self.confirm_command(c)
            },
        }
    }

    /// Picks the search result at `idx`, if there is one.
    fn pick_result(&mut self, idx: usize) -> (r: Result<(), AppError>)
        requires
            old(self).wf(),
        ensures
            r is Ok,
            final(self).wf(),
            final(self).search_results == old(self).search_results,
            idx < old(self).search_results@.len() ==> picked_command(
                old(self)@,
                final(self)@,
                old(self).store,
                final(self).store,
                old(self).search_results@[idx as int].command@,
            ),
            idx >= old(self).search_results@.len() ==> final(self)@ == old(self)@ && final(self).store
                == old(self).store,
    {
        if idx >= self.search_results.len() {
            return Ok(());
        }
        let cmd = self.search_results[idx].command.clone();
        assert(cmd@ == self.search_results@[idx as int].command@);
        self.confirm_command(cmd)
    }

    /// The query with `ch` appended.
    fn push_query(&mut self, ch: char)
        ensures
            final(self)@ == (AppModel { search_query: old(self)@.search_query.push(ch), ..old(self)@ }),
            final(self).store == old(self).store,
            final(self).items == old(self).items,
            final(self).search_results == old(self).search_results,
    {
        let mut q = chars_of(self.search_query.as_str());
        q.push(ch);
        self.search_query = string_of(q.as_slice());
    }

    fn handle_key_browse(&mut self, key: Key) -> (r: Result<(), AppError>)
        requires
            old(self).wf(),
            old(self).mode == Mode::Browse,
            key_runs(old(self)@, old(self).store, key),
        ensures
            r is Ok,
            final(self).wf(),
            browse_step(
                old(self)@,
                final(self)@,
                old(self).store,
                final(self).store,
                old(self).search_results@,
                final(self).search_results@,
                key,
            ),
    {
        if key.ctrl && key.code == KeyCode::Char('c') {
            self.should_quit = true;
            return Ok(());
        }
        match key.code {
            KeyCode::Char(ch) => match slot_of(ch) {
                Some(idx) => self.pick_entry(idx),
                None => {
                    if ch == 'q' {
                        self.go_back()
                    } else {
                        self.push_query(ch);
                        self.mode = Mode::Search;
                        self.search_selected = 0;
                        self.refresh_search()
                    }
                },
            },
            KeyCode::Up => {
                if self.selected_index > 0 {
                    self.selected_index = self.selected_index - 1;
                }
                Ok(())
            },
            KeyCode::Down => {
                let max = if self.items.is_empty() {
                    0
                } else {
                    self.items.len() - 1
                };
                if self.selected_index < max {
                    self.selected_index = self.selected_index + 1;
                }
                Ok(())
            },
            KeyCode::Enter => self.pick_entry(self.selected_index),
            KeyCode::Esc => self.go_back(),
            _ => Ok(()),
        }
    }

    fn handle_key_search(&mut self, key: Key) -> (r: Result<(), AppError>)
        requires
            old(self).wf(),
            old(self).mode == Mode::Search,
            key_runs(old(self)@, old(self).store, key),
        ensures
            r is Ok,
            final(self).wf(),
            search_step(
                old(self)@,
                final(self)@,
                old(self).store,
                final(self).store,
                old(self).search_results@,
                final(self).search_results@,
                key,
            ),
    {
        if key.ctrl && key.code == KeyCode::Char('c') {
            self.should_quit = true;
            return Ok(());
        }
        match key.code {
            KeyCode::Char(ch) => match slot_of(ch) {
                Some(idx) => self.pick_result(idx),
                None => {
                    self.push_query(ch);
                    let r = self.refresh_search();
                    self.update_search_mode();
                    r
                },
            },
            KeyCode::Up => {
                if self.search_selected > 0 {
                    self.search_selected = self.search_selected - 1;
                }
                Ok(())
            },
            KeyCode::Down => {
                let max = if self.search_results.is_empty() {
                    0
                } else {
                    self.search_results.len() - 1
                };
                if self.search_selected < max {
                    self.search_selected = self.search_selected + 1;
                }
                Ok(())
            },
            KeyCode::Enter => self.pick_result(self.search_selected),
            KeyCode::Esc => {
                self.search_query = String::new();
                self.mode = Mode::Browse;
                self.search_results = Vec::new();
                self.search_selected = 0;
                Ok(())
            },
            KeyCode::Backspace => {
                let mut q = chars_of(self.search_query.as_str());
                if q.len() > 0 {
                    q.pop();
                    self.search_query = string_of(q.as_slice());
                }
                let r = self.refresh_search();
                if self.search_query.as_str().is_empty() {
                    self.mode = Mode::Browse;
                    self.search_results = Vec::new();
                    self.search_selected = 0;
                }
                r
            },
            _ => Ok(()),
        }
    }
}

} // verus!
