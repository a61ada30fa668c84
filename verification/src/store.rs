//! The command store: a flat list of folders (linked to their parent by id)
//! and a flat list of saved commands (linked to their folder by id).
use vstd::prelude::*;
use crate::order::{RankKey, ranked, is_index_permutation, distinct_positions, id_key, rank_order};
use crate::text::{
    same_text, chars_of, string_of, to_lower, lowercase, trim_chars, trimmed, split_on, pieces, replace_all,
    replaced, decimal, decimal_text, text_views,
};

verus! {

// ───────────────────────────── data ─────────────────────────────

/// The mathematical value of a folder.
pub ghost struct FolderModel {
    pub id: Seq<char>,
    pub parent: Seq<char>,
    pub name: Seq<char>,
}

/// A folder. `parent` is the id of the parent folder, empty at the root.
#[derive(Debug, PartialEq)]
pub struct Folder {
    pub id: String,
    pub parent: String,
    pub name: String,
}

impl View for Folder {
    type V = FolderModel;

    open spec fn view(&self) -> FolderModel {
        FolderModel { id: self.id@, parent: self.parent@, name: self.name@ }
    }
}

impl Clone for Folder {
    fn clone(&self) -> (r: Self)
        ensures
            r@ == self@,
    {
        Folder { id: self.id.clone(), parent: self.parent.clone(), name: self.name.clone() }
    }
}

/// The mathematical value of a saved command.
pub ghost struct CommandModel {
    pub id: u32,
    pub folder: Seq<char>,
    pub cmd: Seq<char>,
    pub desc: Seq<char>,
    pub comment: Seq<char>,
    pub tags: Seq<Seq<char>>,
    pub last_used: Seq<char>,
}

/// A saved shell command, filed in the folder whose id is `folder`.
#[derive(Debug, PartialEq)]
pub struct Command {
    pub id: u32,
    pub folder: String,
    pub cmd: String,
    pub desc: String,
    pub comment: String,
    pub tags: Vec<String>,
    pub last_used: String,
}

impl View for Command {
    type V = CommandModel;

    open spec fn view(&self) -> CommandModel {
        CommandModel {
            id: self.id,
            folder: self.folder@,
            cmd: self.cmd@,
            desc: self.desc@,
            comment: self.comment@,
            tags: text_views(self.tags@),
            last_used: self.last_used@,
        }
    }
}

/// A copy of a list of strings.
pub fn copy_texts(v: &Vec<String>) -> (r: Vec<String>)
    ensures
        text_views(r@) == text_views(v@),
{
    let r = v.clone();
    assert(text_views(r@) =~= text_views(v@));
    r
}

impl Clone for Command {
    fn clone(&self) -> (r: Self)
        ensures
            r@ == self@,
    {
        Command {
            id: self.id,
            folder: self.folder.clone(),
            cmd: self.cmd.clone(),
            desc: self.desc.clone(),
            comment: self.comment.clone(),
            tags: copy_texts(&self.tags),
            last_used: self.last_used.clone(),
        }
    }
}

/// All folders and commands.
#[derive(Debug)]
pub struct Store {
    pub folders: Vec<Folder>,
    pub commands: Vec<Command>,
}

impl Default for Store {
    fn default() -> (s: Self)
        ensures
            s.folders@.len() == 0,
            s.commands@.len() == 0,
    {
        Store { folders: Vec::new(), commands: Vec::new() }
    }
}

/// A copy of a list of folders.
pub fn copy_folders(v: &Vec<Folder>) -> (r: Vec<Folder>)
    ensures
        r@.len() == v@.len(),
        forall|k: int| 0 <= k < v@.len() ==> #[trigger] r@[k]@ == v@[k]@,
{
    let mut r: Vec<Folder> = Vec::new();
    for i in 0..v.len()
        invariant
            r@.len() == i,
            forall|k: int| 0 <= k < i ==> #[trigger] r@[k]@ == v@[k]@,
    {
        r.push(v[i].clone());
    }
    r
}

/// A copy of a list of commands.
pub fn copy_commands(v: &Vec<Command>) -> (r: Vec<Command>)
    ensures
        r@.len() == v@.len(),
        forall|k: int| 0 <= k < v@.len() ==> #[trigger] r@[k]@ == v@[k]@,
{
    let mut r: Vec<Command> = Vec::new();
    for i in 0..v.len()
        invariant
            r@.len() == i,
            forall|k: int| 0 <= k < i ==> #[trigger] r@[k]@ == v@[k]@,
    {
        r.push(v[i].clone());
    }
    r
}

impl Clone for Store {
    fn clone(&self) -> (r: Self)
        ensures
            r.folders@.len() == self.folders@.len(),
            r.commands@.len() == self.commands@.len(),
            forall|k: int| 0 <= k < self.folders@.len() ==> #[trigger] r.folders@[k]@ == self.folders@[k]@,
            forall|k: int| 0 <= k < self.commands@.len() ==> #[trigger] r.commands@[k]@ == self.commands@[k]@,
    {
        Store { folders: copy_folders(&self.folders), commands: copy_commands(&self.commands) }
    }
}

// ───────────────────────────── tree queries ─────────────────────────────

/// The folder lies directly under the folder with id `p` (root: `p` empty).
pub open spec fn parent_is(p: Seq<char>) -> spec_fn(Folder) -> bool {
    |f: Folder| f.parent@ == p
}

/// The command is filed directly in the folder with id `p`.
pub open spec fn filed_in(p: Seq<char>) -> spec_fn(Command) -> bool {
    |c: Command| c.folder@ == p
}

/// The folders directly under `p`, in store order.
pub open spec fn folders_under(folders: Seq<Folder>, p: Seq<char>) -> Seq<Folder> {
    folders.filter(parent_is(p))
}

/// The commands filed directly in `p`, in store order.
pub open spec fn commands_in(commands: Seq<Command>, p: Seq<char>) -> Seq<Command> {
    commands.filter(filed_in(p))
}

impl Store {
    /// The number of entries (sub-folders and commands) directly in `p`.
    pub open spec fn item_count(self, p: Seq<char>) -> nat {
        folders_under(self.folders@, p).len() + commands_in(self.commands@, p).len()
    }

    /// The folders directly under `parent_id`, in store order.
    pub fn children_folders(&self, parent_id: &str) -> (r: Vec<&Folder>)
        ensures
            r@.map_values(|f: &Folder| f@) == folders_under(self.folders@, parent_id@).map_values(
                |f: Folder| f@,
            ),
    {
        let target = String::from_str(parent_id);
        let mut r: Vec<&Folder> = Vec::new();
        let n = self.folders.len();
        for i in 0..n
            invariant
                n == self.folders@.len(),
                target@ == parent_id@,
                r@.map_values(|f: &Folder| f@) == folders_under(
                    self.folders@.take(i as int),
                    parent_id@,
                ).map_values(|f: Folder| f@),
        {
            let f: &Folder = &self.folders[i];
            let ghost prev = folders_under(self.folders@.take(i as int), parent_id@);
            let ghost before = r@;
            assert(self.folders@.take(i + 1) =~= self.folders@.take(i as int).push(*f));
            proof {
                self.folders@.take(i as int).lemma_filter_push(*f, parent_is(parent_id@));
            }
            if f.parent == target {
                r.push(f);
                assert(r@.map_values(|f: &Folder| f@) =~= before.map_values(|f: &Folder| f@).push(
                    f@,
                ));
                assert(prev.push(*f).map_values(|f: Folder| f@) =~= prev.map_values(
                    |f: Folder| f@,
                ).push(f@));
            }
        }
        assert(self.folders@.take(n as int) =~= self.folders@);
        r
    }

    /// The commands filed directly in `folder_id`, in store order.
    pub fn folder_commands(&self, folder_id: &str) -> (r: Vec<&Command>)
        ensures
            r@.map_values(|c: &Command| c@) == commands_in(self.commands@, folder_id@).map_values(
                |c: Command| c@,
            ),
    {
        let target = String::from_str(folder_id);
        let mut r: Vec<&Command> = Vec::new();
        let n = self.commands.len();
        for i in 0..n
            invariant
                n == self.commands@.len(),
                target@ == folder_id@,
                r@.map_values(|c: &Command| c@) == commands_in(
                    self.commands@.take(i as int),
                    folder_id@,
                ).map_values(|c: Command| c@),
        {
            let c: &Command = &self.commands[i];
            let ghost prev = commands_in(self.commands@.take(i as int), folder_id@);
            let ghost before = r@;
            assert(self.commands@.take(i + 1) =~= self.commands@.take(i as int).push(*c));
            proof {
                self.commands@.take(i as int).lemma_filter_push(*c, filed_in(folder_id@));
            }
            if c.folder == target {
                r.push(c);
                assert(r@.map_values(|c: &Command| c@) =~= before.map_values(|c: &Command| c@).push(
                    c@,
                ));
                assert(prev.push(*c).map_values(|c: Command| c@) =~= prev.map_values(
                    |c: Command| c@,
                ).push(c@));
            }
        }
        assert(self.commands@.take(n as int) =~= self.commands@);
        r
    }

    /// The number of folders directly under `p`.
    pub fn count_folders_under(&self, p: &String) -> (r: usize)
        ensures
            r == folders_under(self.folders@, p@).len(),
    {
        let mut count: usize = 0;
        let n = self.folders.len();
        for i in 0..n
            invariant
                n == self.folders@.len(),
                count == folders_under(self.folders@.take(i as int), p@).len(),
                count <= i,
        {
            assert(self.folders@.take(i + 1) =~= self.folders@.take(i as int).push(
                self.folders@[i as int],
            ));
            proof {
                self.folders@.take(i as int).lemma_filter_push(
                    self.folders@[i as int],
                    parent_is(p@),
                );
            }
            if self.folders[i].parent == *p {
                count = count + 1;
            }
        }
        assert(self.folders@.take(n as int) =~= self.folders@);
        count
    }

    /// The number of commands filed directly in `p`.
    pub fn count_commands_in(&self, p: &String) -> (r: usize)
        ensures
            r == commands_in(self.commands@, p@).len(),
    {
        let mut count: usize = 0;
        let n = self.commands.len();
        for i in 0..n
            invariant
                n == self.commands@.len(),
                count == commands_in(self.commands@.take(i as int), p@).len(),
                count <= i,
        {
            assert(self.commands@.take(i + 1) =~= self.commands@.take(i as int).push(
                self.commands@[i as int],
            ));
            proof {
                self.commands@.take(i as int).lemma_filter_push(
                    self.commands@[i as int],
                    filed_in(p@),
                );
            }
            if self.commands[i].folder == *p {
                count = count + 1;
            }
        }
        assert(self.commands@.take(n as int) =~= self.commands@);
        count
    }
}

// ───────────────────────────── breadcrumbs ─────────────────────────────

/// The index of the first folder at or after `k` whose id is `id`.
pub open spec fn folder_index_from(folders: Seq<Folder>, id: Seq<char>, k: int) -> Option<int>
    decreases folders.len() - k,
{
    if k < 0 || k >= folders.len() {
        None
    } else if folders[k].id@ == id {
        Some(k)
    } else {
        folder_index_from(folders, id, k + 1)
    }
}

/// The index of the first folder whose id is `id`.
pub open spec fn folder_index(folders: Seq<Folder>, id: Seq<char>) -> Option<int> {
    folder_index_from(folders, id, 0)
}

pub proof fn lemma_folder_index_from(folders: Seq<Folder>, id: Seq<char>, k: int)
    requires
        0 <= k,
    ensures
        folder_index_from(folders, id, k) matches Some(j) ==> k <= j < folders.len()
            && folders[j].id@ == id && forall|m: int| k <= m < j ==> folders[m].id@ != id,
        folder_index_from(folders, id, k) is None ==> forall|m: int|
            k <= m < folders.len() ==> folders[m].id@ != id,
    decreases folders.len() - k,
{
    if k < folders.len() && folders[k].id@ != id {
        lemma_folder_index_from(folders, id, k + 1);
    }
}

/// The names met when walking from the folder `id` up through its parents
/// (the folder itself first), allowing at most `fuel` steps to a parent.
/// The walk stops at a missing folder, at a folder whose parent is empty,
/// and at a folder that is its own parent; `None` means it needed more steps.
pub open spec fn walk_names(folders: Seq<Folder>, id: Seq<char>, fuel: nat) -> Option<Seq<Seq<char>>>
    decreases fuel,
{
    match folder_index(folders, id) {
        None => Some(Seq::empty()),
        Some(k) => {
            let f = folders[k];
            if f.parent@.len() == 0 || f.parent@ == id {
                Some(seq![f.name@])
            } else if fuel == 0 {
                None
            } else {
                match walk_names(folders, f.parent@, (fuel - 1) as nat) {
                    Some(rest) => Some(seq![f.name@] + rest),
                    None => None,
                }
            }
        },
    }
}

/// More steps do not change a walk that ended.
pub proof fn lemma_walk_fuel(folders: Seq<Folder>, id: Seq<char>, f1: nat, f2: nat)
    requires
        f1 <= f2,
        walk_names(folders, id, f1) is Some,
    ensures
        walk_names(folders, id, f2) == walk_names(folders, id, f1),
    decreases f1,
{
    match folder_index(folders, id) {
        None => {},
        Some(k) => {
            let f = folders[k];
            if f.parent@.len() == 0 || f.parent@ == id {
            } else {
                lemma_walk_fuel(folders, f.parent@, (f1 - 1) as nat, (f2 - 1) as nat);
            }
        },
    }
}

/// With distinct ids, the first folder with the id of the folder at `j` is
/// that folder.
pub proof fn lemma_folder_index_unique(folders: Seq<Folder>, j: int)
    requires
        0 <= j < folders.len(),
        forall|a: int, b: int| 0 <= a < b < folders.len() ==> folders[a].id@ != folders[b].id@,
    ensures
        folder_index(folders, folders[j].id@) == Some(j),
{
    lemma_folder_index_from(folders, folders[j].id@, 0);
}

impl Store {
    /// The folders are sound: their ids are non-empty and distinct, no
    /// folder is its own parent, and the parent chain from every folder
    /// ends.
    pub open spec fn folders_sound(self) -> bool {
        &&& forall|k: int| 0 <= k < self.folders@.len() ==> (#[trigger] self.folders@[k]).id@.len() > 0
        &&& forall|a: int, b: int|
            0 <= a < b < self.folders@.len() ==> self.folders@[a].id@ != self.folders@[b].id@
        &&& forall|k: int|
            0 <= k < self.folders@.len() ==> (#[trigger] self.folders@[k]).parent@ != self.folders@[k].id@
        &&& forall|k: int| 0 <= k < self.folders@.len() ==> self.chain_ends(#[trigger] self.folders@[k].id@)
    }
}

/// In a sound store the root has an empty breadcrumb.
pub proof fn lemma_root_crumbs(store: Store)
    requires
        store.folders_sound(),
    ensures
        store.crumbs(Seq::empty()) == Seq::<Seq<char>>::empty(),
{
    lemma_folder_index_from(store.folders@, Seq::empty(), 0);
    if let Some(k) = folder_index(store.folders@, Seq::empty()) {
        assert(store.folders@[k].id@.len() > 0);
    }
    assert(Seq::<Seq<char>>::empty().reverse() =~= Seq::<Seq<char>>::empty());
}

/// In a sound store the breadcrumb of the folder at `j` is its parent's
/// breadcrumb followed by its name (just its name under the root).
pub proof fn lemma_crumbs_step(store: Store, j: int)
    requires
        store.folders_sound(),
        0 <= j < store.folders@.len(),
    ensures
        store.folders@[j].parent@.len() == 0 ==> store.crumbs(store.folders@[j].id@) == seq![
            store.folders@[j].name@,
        ],
        store.folders@[j].parent@.len() > 0 ==> store.crumbs(store.folders@[j].id@) == store.crumbs(
            store.folders@[j].parent@,
        ).push(store.folders@[j].name@),
{
    let fs = store.folders@;
    let n = fs.len();
    let f = fs[j];
    lemma_folder_index_unique(fs, j);
    assert(store.chain_ends(fs[j].id@));
    assert(f.parent@ != f.id@);
    if f.parent@.len() == 0 {
        assert(seq![f.name@].reverse() =~= seq![f.name@]);
    } else {
        let w = walk_names(fs, f.parent@, (n - 1) as nat);
        assert(w is Some);
        lemma_walk_fuel(fs, f.parent@, (n - 1) as nat, n);
        assert((seq![f.name@] + w.unwrap()).reverse() =~= w.unwrap().reverse().push(f.name@));
    }
}

impl Store {
    /// Walking up from `id` reaches the root (or a missing or self-parented
    /// folder) within as many steps as there are folders, that is, the
    /// parent links from `id` do not run in a cycle.
    pub open spec fn chain_ends(self, id: Seq<char>) -> bool {
        walk_names(self.folders@, id, self.folders@.len()) is Some
    }

    /// The folder names from the root down to the folder `id`.
    pub open spec fn crumbs(self, id: Seq<char>) -> Seq<Seq<char>> {
        walk_names(self.folders@, id, self.folders@.len()).unwrap().reverse()
    }

    /// The index of the first folder whose id is `id`.
    pub fn find_folder(&self, id: &String) -> (r: Option<usize>)
        ensures
            match r {
                Some(k) => folder_index(self.folders@, id@) == Some(k as int),
                None => folder_index(self.folders@, id@) is None,
            },
            r matches Some(k) ==> k < self.folders@.len() && self.folders@[k as int].id@ == id@,
    {
        let n = self.folders.len();
        let mut k: usize = 0;
        while k < n
            invariant
                n == self.folders@.len(),
                k <= n,
                folder_index(self.folders@, id@) == folder_index_from(self.folders@, id@, k as int),
            decreases n - k,
        {
            if self.folders[k].id == *id {
                return Some(k);
            }
            k = k + 1;
        }
        None
    }

    /// The names of the folders from the root down to (and including) the
    /// folder `folder_id`; empty when no folder has that id.
    pub fn breadcrumb(&self, folder_id: &str) -> (r: Vec<String>)
        requires
            self.chain_ends(folder_id@),
        ensures
            text_views(r@) == self.crumbs(folder_id@),
    {
        let ghost fs = self.folders@;
        let ghost total = fs.len();
        let mut crumbs: Vec<String> = Vec::new();
        let mut current = String::from_str(folder_id);
        let ghost mut fuel: nat = total;
        loop
            invariant_except_break
                walk_names(fs, current@, fuel) is Some,
                walk_names(fs, folder_id@, total) == Some(
                    text_views(crumbs@) + walk_names(fs, current@, fuel).unwrap(),
                ),
            invariant
                fs == self.folders@,
                total == fs.len(),
            ensures
                walk_names(fs, folder_id@, total) == Some(text_views(crumbs@)),
            decreases fuel,
        {
            let ghost before = text_views(crumbs@);
            match self.find_folder(&current) {
                None => {
                    assert(before + Seq::<Seq<char>>::empty() =~= before);
                    break;
                },
                Some(k) => {
                    let f = &self.folders[k];
                    crumbs.push(f.name.clone());
                    assert(text_views(crumbs@) =~= before.push(f.name@));
                    if f.parent.as_str().is_empty() || f.parent == current {
                        assert(before + seq![f.name@] =~= before.push(f.name@));
                        break;
                    }
                    let ghost rest = walk_names(fs, f.parent@, (fuel - 1) as nat).unwrap();
                    assert(before + (seq![f.name@] + rest) =~= before.push(f.name@) + rest);
                    current = f.parent.clone();
                    proof {
                        fuel = (fuel - 1) as nat;
                    }
                },
            }
        }
        let n = crumbs.len();
        let mut r: Vec<String> = Vec::new();
        let mut i: usize = n;
        while i > 0
            invariant
                n == crumbs@.len(),
                i <= n,
                r@.len() == n - i,
                forall|k: int| 0 <= k < r@.len() ==> #[trigger] r@[k]@ == crumbs@[n - 1 - k]@,
            decreases i,
        {
            i = i - 1;
            r.push(crumbs[i].clone());
        }
        assert(text_views(r@) =~= text_views(crumbs@).reverse());
        r
    }
}

// ───────────────────────────── ids ─────────────────────────────

/// The largest command id, or 0 without commands.
pub open spec fn max_id(commands: Seq<Command>) -> nat
    decreases commands.len(),
{
    if commands.len() == 0 {
        0
    } else {
        let m = max_id(commands.drop_last());
        if commands.last().id > m {
            commands.last().id as nat
        } else {
            m
        }
    }
}

proof fn lemma_max_id_bounds(commands: Seq<Command>)
    ensures
        forall|k: int| 0 <= k < commands.len() ==> #[trigger] commands[k].id <= max_id(commands),
    decreases commands.len(),
{
    if commands.len() > 0 {
        lemma_max_id_bounds(commands.drop_last());
        assert forall|k: int| 0 <= k < commands.len() implies #[trigger] commands[k].id <= max_id(
            commands,
        ) by {
            if k < commands.len() - 1 {
                assert(commands.drop_last()[k] == commands[k]);
            }
        }
    }
}

/// Two commands share an id.
pub open spec fn has_duplicate_ids(commands: Seq<Command>) -> bool {
    exists|a: int, b: int| 0 <= a < b < commands.len() && commands[a].id == commands[b].id
}

/// The first index at or after `k` of a command whose id is `id`.
pub open spec fn command_index_from(commands: Seq<Command>, id: u32, k: int) -> Option<int>
    decreases commands.len() - k,
{
    if k < 0 || k >= commands.len() {
        None
    } else if commands[k].id == id {
        Some(k)
    } else {
        command_index_from(commands, id, k + 1)
    }
}

/// The first index of a command whose id is `id`.
pub open spec fn command_index(commands: Seq<Command>, id: u32) -> Option<int> {
    command_index_from(commands, id, 0)
}

pub proof fn lemma_command_index_from(commands: Seq<Command>, id: u32, k: int)
    requires
        0 <= k,
    ensures
        command_index_from(commands, id, k) matches Some(j) ==> k <= j < commands.len()
            && commands[j].id == id && forall|m: int| k <= m < j ==> commands[m].id != id,
        command_index_from(commands, id, k) is None ==> forall|m: int|
            k <= m < commands.len() ==> commands[m].id != id,
    decreases commands.len() - k,
{
    if k < commands.len() && commands[k].id != id {
        lemma_command_index_from(commands, id, k + 1);
    }
}

/// The sort keys that order commands by id, keeping the store order among
/// equal ids.
pub open spec fn id_keys(commands: Seq<Command>) -> Seq<RankKey> {
    Seq::new(commands.len(), |i: int| id_key(commands[i].id, i as usize))
}

/// A command with its id replaced.
pub open spec fn renumbered(c: CommandModel, id: u32) -> CommandModel {
    CommandModel { id, ..c }
}

/// Whether two commands share an id.
pub fn has_duplicates(commands: &Vec<Command>) -> (r: bool)
    ensures
        r == has_duplicate_ids(commands@),
{
    let n = commands.len();
    for b in 0..n
        invariant
            n == commands@.len(),
            forall|x: int, y: int| 0 <= x < y < b ==> commands@[x].id != commands@[y].id,
    {
        for a in 0..b
            invariant
                n == commands@.len(),
                b < n,
                forall|x: int, y: int| 0 <= x < y < b ==> commands@[x].id != commands@[y].id,
                forall|x: int| 0 <= x < a ==> commands@[x].id != commands@[b as int].id,
        {
            if commands[a].id == commands[b].id {
                return true;
            }
        }
    }
    false
}

impl Store {
    /// One more than the largest command id (1 for an empty store).
    pub fn next_command_id(&self) -> (r: u32)
        requires
            forall|k: int| 0 <= k < self.commands@.len() ==> #[trigger] self.commands@[k].id < u32::MAX,
        ensures
            r == max_id(self.commands@) + 1,
            forall|k: int| 0 <= k < self.commands@.len() ==> #[trigger] self.commands@[k].id < r,
    {
        let n = self.commands.len();
        let mut m: u32 = 0;
        for i in 0..n
            invariant
                n == self.commands@.len(),
                m == max_id(self.commands@.take(i as int)),
                forall|k: int| 0 <= k < self.commands@.len() ==> #[trigger] self.commands@[k].id < u32::MAX,
                m < u32::MAX,
        {
            assert(self.commands@.take(i + 1).drop_last() =~= self.commands@.take(i as int));
            if self.commands[i].id > m {
                m = self.commands[i].id;
            }
        }
        assert(self.commands@.take(n as int) =~= self.commands@);
        proof {
            lemma_max_id_bounds(self.commands@);
        }
        m + 1
    }

    /// The position of the first command whose id is `id`.
    pub fn command_position(&self, id: u32) -> (r: Option<usize>)
        ensures
            match r {
                Some(k) => command_index(self.commands@, id) == Some(k as int),
                None => command_index(self.commands@, id) is None,
            },
            r matches Some(k) ==> k < self.commands@.len() && self.commands@[k as int].id == id,
    {
        let n = self.commands.len();
        let mut k: usize = 0;
        while k < n
            invariant
                n == self.commands@.len(),
                k <= n,
                command_index(self.commands@, id) == command_index_from(self.commands@, id, k as int),
            decreases n - k,
        {
            if self.commands[k].id == id {
                return Some(k);
            }
            k = k + 1;
        }
        None
    }

    /// Gives the commands the ids 1, 2, 3, ... in the order of their current
    /// ids (commands with equal ids keep their order) when two commands
    /// share an id; returns whether it did so. The folders never change.
    pub fn auto_fix_ids(&mut self) -> (changed: bool)
        ensures
            changed == has_duplicate_ids(old(self).commands@),
            final(self).folders == old(self).folders,
            !changed ==> final(self).commands == old(self).commands,
            changed ==> exists|order: Seq<usize>|
                {
                    &&& is_index_permutation(order, old(self).commands@.len())
                    &&& ranked(id_keys(old(self).commands@), order)
                    &&& final(self).commands@.len() == old(self).commands@.len()
                    &&& forall|k: int|
                        0 <= k < order.len() ==> #[trigger] final(self).commands@[k]@ == renumbered(
                            old(self).commands@[order[k] as int]@,
                            (k + 1) as u32,
                        )
                },
            old(self).commands@.len() <= u32::MAX ==> !has_duplicate_ids(final(self).commands@),
    {
        if !has_duplicates(&self.commands) {
            return false;
        }
        let n = self.commands.len();
        let mut keys: Vec<RankKey> = Vec::new();
        for i in 0..n
            invariant
                n == self.commands@.len(),
                keys@.len() == i,
                forall|k: int| 0 <= k < i ==> #[trigger] keys@[k] == id_key(self.commands@[k].id, k as usize),
        {
            keys.push(RankKey { score: 0, stamp: 0, id: self.commands[i].id, pos: i });
        }
        assert(keys@ =~= id_keys(self.commands@));
        let order = rank_order(&keys);
        let mut fixed: Vec<Command> = Vec::new();
        for k in 0..n
            invariant
                n == self.commands@.len(),
                is_index_permutation(order@, n as nat),
                fixed@.len() == k,
                forall|j: int| 0 <= j < k ==> #[trigger] fixed@[j]@ == renumbered(
                    self.commands@[order@[j] as int]@,
                    (j + 1) as u32,
                ),
                forall|j: int| 0 <= j < k ==> #[trigger] fixed@[j].id == (j + 1) as u32,
        {
            let mut c = self.commands[order[k]].clone();
            c.id = (k + 1) as u32;
            fixed.push(c);
        }
        let ghost before = self.commands@;
        self.commands = fixed;
        proof {
            if n <= u32::MAX {
                assert forall|a: int, b: int| 0 <= a < b < n implies self.commands@[a].id
                    != self.commands@[b].id by {
                    assert(self.commands@[a].id == (a + 1) as u32);
                    assert(self.commands@[b].id == (b + 1) as u32);
                }
            }
        }
        true
    }
}

// ───────────────────────────── validation ─────────────────────────────

/// The largest number of entries (sub-folders and commands together) that
/// the root or a folder may hold: the browser selects them with the keys
/// 1-9 and 0.
pub const MAX_ITEMS: usize = 10;

/// Why a store breaks the structural rule.
#[derive(Debug)]
pub enum StoreError {
    /// The root holds `count` entries.
    RootOverLimit { count: usize },
    /// The folder named `name` holds `count` entries.
    FolderOverLimit { name: String, count: usize },
    /// A change would put `count` entries in the folder with id `folder`
    /// (the root when it is empty).
    FolderFull { folder: String, count: usize },
}

impl StoreError {
    /// The human-readable description of the error.
    pub open spec fn message_text(self) -> Seq<char> {
        match self {
            StoreError::RootOverLimit { count } => "Root has "@ + decimal(count as nat)
                + " items (sub-folders + commands combined), limit is 10"@,
            StoreError::FolderOverLimit { name, count } => "Folder '"@ + name@ + "' has "@
                + decimal(count as nat) + " items (sub-folders + commands combined), limit is 10"@,
            StoreError::FolderFull { folder, count } => (if folder@.len() == 0 {
                "Root"@
            } else {
                "Folder '"@ + folder@ + "'"@
            }) + " would have "@ + decimal(count as nat)
                + " items (sub-folders + commands combined), limit is 10"@,
        }
    }

    /// The human-readable description of the error.
    pub fn message(&self) -> (r: String)
        ensures
            r@ == self.message_text(),
    {
        match self {
            StoreError::RootOverLimit { count } => {
                let mut r = String::from_str("Root has ");
                let digits = string_of(decimal_text(*count).as_slice());
                r.append(digits.as_str());
                r.append(" items (sub-folders + commands combined), limit is 10");
                r
            },
            StoreError::FolderOverLimit { name, count } => {
                let mut r = String::from_str("Folder '");
                r.append(name.as_str());
                r.append("' has ");
                let digits = string_of(decimal_text(*count).as_slice());
                r.append(digits.as_str());
                r.append(" items (sub-folders + commands combined), limit is 10");
                r
            },
            StoreError::FolderFull { folder, count } => {
                let mut r = if folder.as_str().is_empty() {
                    String::from_str("Root")
                } else {
                    let mut t = String::from_str("Folder '");
                    t.append(folder.as_str());
                    t.append("'");
                    t
                };
                r.append(" would have ");
                let digits = string_of(decimal_text(*count).as_slice());
                r.append(digits.as_str());
                r.append(" items (sub-folders + commands combined), limit is 10");
                r
            },
        }
    }
}

impl Store {
    /// The root and every folder hold at most `MAX_ITEMS` entries.
    pub open spec fn within_limits(self) -> bool {
        &&& self.item_count(Seq::empty()) <= MAX_ITEMS
        &&& forall|k: int|
            0 <= k < self.folders@.len() ==> self.item_count(#[trigger] self.folders@[k].id@)
                <= MAX_ITEMS
    }

    /// Checks that the root and every folder hold at most ten entries
    /// (sub-folders and commands together). The root is checked first, then
    /// the folders in store order; the first one over the limit is reported.
    pub fn validate(&self) -> (r: Result<(), StoreError>)
        requires
            self.folders@.len() + self.commands@.len() <= usize::MAX,
        ensures
            r is Ok <==> self.within_limits(),
            !(r matches Err(StoreError::FolderFull { .. })),
            r matches Err(StoreError::RootOverLimit { count }) ==> count == self.item_count(
                Seq::empty(),
            ) && count > MAX_ITEMS,
            r matches Err(StoreError::FolderOverLimit { name, count }) ==> {
                &&& self.item_count(Seq::empty()) <= MAX_ITEMS
                &&& exists|k: int|
                    {
                        &&& 0 <= k < self.folders@.len()
                        &&& forall|j: int|
                            0 <= j < k ==> self.item_count(#[trigger] self.folders@[j].id@)
                                <= MAX_ITEMS
                        &&& name@ == self.folders@[k].name@
                        &&& count == self.item_count(self.folders@[k].id@)
                        &&& count > MAX_ITEMS
                    }
            },
    {
        proof {
            broadcast use vstd::seq_lib::group_filter_ensures;
        }
        let root = String::new();
        let root_total = self.count_folders_under(&root) + self.count_commands_in(&root);
        assert(root@ =~= Seq::<char>::empty());
        if root_total > MAX_ITEMS {
            return Err(StoreError::RootOverLimit { count: root_total });
        }
        let n = self.folders.len();
        for k in 0..n
            invariant
                n == self.folders@.len(),
                self.folders@.len() + self.commands@.len() <= usize::MAX,
                self.item_count(Seq::empty()) <= MAX_ITEMS,
                forall|j: int| 0 <= j < k ==> self.item_count(#[trigger] self.folders@[j].id@) <= MAX_ITEMS,
        {
            let id = &self.folders[k].id;
            let total = self.count_folders_under(id) + self.count_commands_in(id);
            if total > MAX_ITEMS {
                let name = self.folders[k].name.clone();
                return Err(StoreError::FolderOverLimit { name, count: total });
            }
        }
        Ok(())
    }
}

/// What `validate` accepts, in terms of the counts: it succeeds exactly
/// when the root and every folder of the store, at whatever depth, hold at
/// most `MAX_ITEMS` sub-folders and commands together.
pub proof fn lemma_validate_counts_every_folder(store: Store, ok: bool)
    requires
        ok <==> store.within_limits(),
    ensures
        ok ==> folders_under(store.folders@, Seq::empty()).len() + commands_in(store.commands@, Seq::empty()).len()
            <= MAX_ITEMS,
        ok ==> forall|k: int|
            0 <= k < store.folders@.len() ==> folders_under(store.folders@, #[trigger] store.folders@[k].id@).len()
                + commands_in(store.commands@, store.folders@[k].id@).len() <= MAX_ITEMS,
        !ok ==> folders_under(store.folders@, Seq::empty()).len() + commands_in(store.commands@, Seq::empty()).len()
            > MAX_ITEMS || exists|k: int|
            0 <= k < store.folders@.len() && folders_under(store.folders@, #[trigger] store.folders@[k].id@).len()
                + commands_in(store.commands@, store.folders@[k].id@).len() > MAX_ITEMS,
{
}

// ───────────────────────────── editing ─────────────────────────────

/// Keeps the piece non-empty after trimming.
pub open spec fn non_blank() -> spec_fn(Seq<char>) -> bool {
    |t: Seq<char>| t.len() > 0
}

/// The tags typed as a comma-separated list: each piece trimmed, empty
/// pieces dropped.
pub open spec fn tag_list(raw: Seq<char>) -> Seq<Seq<char>> {
    pieces(raw, ',').map_values(|t: Seq<char>| trimmed(t)).filter(non_blank())
}

/// Splits a comma-separated tag list into trimmed, non-empty tags.
pub fn parse_tags(raw: &str) -> (r: Vec<String>)
    ensures
        text_views(r@) == tag_list(raw@),
{
    let chars = chars_of(raw);
    let parts = split_on(chars.as_slice(), ',');
    let ghost ps = pieces(raw@, ',');
    assert(parts@.map_values(|w: Vec<char>| w@) == ps);
    let ghost tr = ps.map_values(|t: Seq<char>| trimmed(t));
    let mut r: Vec<String> = Vec::new();
    let n = parts.len();
    for i in 0..n
        invariant
            n == parts@.len(),
            n == ps.len(),
            tr == ps.map_values(|t: Seq<char>| trimmed(t)),
            forall|k: int| 0 <= k < n ==> #[trigger] parts@[k]@ == ps[k],
            text_views(r@) == tr.take(i as int).filter(non_blank()),
    {
        let t = trim_chars(parts[i].as_slice());
        assert(t@ == tr[i as int]);
        assert(tr.take(i + 1) =~= tr.take(i as int).push(tr[i as int]));
        proof {
            tr.take(i as int).lemma_filter_push(tr[i as int], non_blank());
        }
        if t.len() > 0 {
            let ghost before = text_views(r@);
            r.push(string_of(t.as_slice()));
            assert(text_views(r@) =~= before.push(t@));
        }
    }
    assert(tr.take(n as int) =~= tr);
    r
}

/// The id given to a new folder: the lower-cased name with spaces turned
/// into underscores, after the parent's id and a dot when there is a parent.
pub open spec fn new_folder_id(name: Seq<char>, parent: Option<Seq<char>>) -> Seq<char> {
    let base = replaced(lowercase(name), seq![' '], seq!['_']);
    match parent {
        Some(p) => p + "."@ + base,
        None => base,
    }
}

/// The id given to a new folder named `name` under `parent`.
pub fn folder_id_for(name: &str, parent: Option<&str>) -> (r: String)
    ensures
        r@ == new_folder_id(name@, match parent {
            Some(p) => Some(p@),
            None => None,
        }),
{
    let lower = to_lower(name);
    let lower_chars = chars_of(lower.as_str());
    let mut space: Vec<char> = Vec::new();
    space.push(' ');
    let mut underscore: Vec<char> = Vec::new();
    underscore.push('_');
    assert(space@ =~= seq![' ']);
    assert(underscore@ =~= seq!['_']);
    let base = string_of(replace_all(lower_chars.as_slice(), space.as_slice(), underscore.as_slice()).as_slice());
    match parent {
        Some(p) => {
            let mut r = String::from_str(p);
            r.append(".");
            r.append(base.as_str());
            r
        },
        None => base,
    }
}

/// The value typed for a field being edited: the new text, or the current
/// value when nothing was typed.
pub fn keep_or_replace(current: &String, input: &str) -> (r: String)
    ensures
        r@ == (if input@.len() == 0 {
            current@
        } else {
            input@
        }),
{
    if input.is_empty() {
        current.clone()
    } else {
        String::from_str(input)
    }
}

/// Why the input for a new command is refused.
#[derive(Debug, Clone, Copy, PartialEq, Eq, Structural)]
pub enum AddError {
    /// No folder id was given.
    EmptyFolderId,
    /// No command text was given.
    EmptyCommand,
}

impl AddError {
    /// The human-readable description of the error.
    pub open spec fn message_text(self) -> Seq<char> {
        match self {
            AddError::EmptyFolderId => "Folder id cannot be empty"@,
            AddError::EmptyCommand => "Command cannot be empty"@,
        }
    }

    /// The human-readable description of the error.
    pub fn message(&self) -> (r: String)
        ensures
            r@ == self.message_text(),
    {
        match self {
            AddError::EmptyFolderId => String::from_str("Folder id cannot be empty"),
            AddError::EmptyCommand => String::from_str("Command cannot be empty"),
        }
    }
}

/// Checks the folder id given for a new command: it must not be empty.
pub fn check_folder_id(folder_id: &str) -> (r: Result<(), AddError>)
    ensures
        r is Ok <==> folder_id@.len() > 0,
        r is Err ==> r == Err::<(), AddError>(AddError::EmptyFolderId),
{
    if folder_id.is_empty() {
        Err(AddError::EmptyFolderId)
    } else {
        Ok(())
    }
}

/// Checks the text given for a new command: it must not be empty.
pub fn check_command_text(cmd: &str) -> (r: Result<(), AddError>)
    ensures
        r is Ok <==> cmd@.len() > 0,
        r is Err ==> r == Err::<(), AddError>(AddError::EmptyCommand),
{
    if cmd.is_empty() {
        Err(AddError::EmptyCommand)
    } else {
        Ok(())
    }
}

impl Store {
    /// Files a new command in `folder` under the next free id, which it
    /// returns; refuses, changing nothing, when the folder (the root for an
    /// empty id) already holds `MAX_ITEMS` entries.
    pub fn add_command(
        &mut self,
        folder: String,
        cmd: String,
        desc: String,
        comment: String,
        tags: Vec<String>,
    ) -> (r: Result<u32, StoreError>)
        requires
            forall|k: int| 0 <= k < old(self).commands@.len() ==> #[trigger] old(self).commands@[k].id < u32::MAX,
            old(self).folders@.len() + old(self).commands@.len() < usize::MAX,
        ensures
            final(self).folders == old(self).folders,
            r is Err <==> old(self).item_count(folder@) + 1 > MAX_ITEMS,
            r matches Err(e) ==> (e matches StoreError::FolderFull { folder: f, count } && f@ == folder@
                && count == old(self).item_count(folder@) + 1),
            r is Err ==> final(self).commands == old(self).commands,
            r matches Ok(id) ==> {
                &&& id == max_id(old(self).commands@) + 1
                &&& final(self).commands@ == old(self).commands@.push(
                    Command { id, folder, cmd, desc, comment, tags, last_used: final(self).commands@.last().last_used },
                )
                &&& final(self).commands@.last().last_used@.len() == 0
            },
    {
        let count = self.count_folders_under(&folder) + self.count_commands_in(&folder);
        proof {
            broadcast use vstd::seq_lib::group_filter_ensures;
        }
        if count + 1 > MAX_ITEMS {
            return Err(StoreError::FolderFull { folder, count: count + 1 });
        }
        let id = self.next_command_id();
        let command = Command { id, folder, cmd, desc, comment, tags, last_used: String::new() };
        self.commands.push(command);
        Ok(id)
    }

    /// Creates the folder `name` under `parent` (at the root without one),
    /// then checks the structural rule; returns the new folder's id.
    pub fn add_folder(&mut self, name: String, parent: Option<String>) -> (r: Result<String, StoreError>)
        requires
            old(self).folders@.len() + 1 + old(self).commands@.len() <= usize::MAX,
        ensures
            final(self).commands == old(self).commands,
            final(self).folders@.len() == old(self).folders@.len() + 1,
            final(self).folders@.drop_last() == old(self).folders@,
            final(self).folders@.last().id@ == new_folder_id(name@, match parent {
                Some(p) => Some(p@),
                None => None,
            }),
            final(self).folders@.last().parent@ == (match parent {
                Some(p) => p@,
                None => Seq::empty(),
            }),
            final(self).folders@.last().name@ == name@,
            r is Ok <==> final(self).within_limits(),
            r matches Ok(id) ==> id@ == final(self).folders@.last().id@,
    {
        let id = match &parent {
            Some(p) => folder_id_for(name.as_str(), Some(p.as_str())),
            None => folder_id_for(name.as_str(), None),
        };
        let parent_id = match parent {
            Some(p) => p,
            None => String::new(),
        };
        let folder = Folder { id: id.clone(), parent: parent_id, name };
        self.folders.push(folder);
        assert(self.folders@.drop_last() =~= old(self).folders@);
        match self.validate() {
            Ok(()) => Ok(id),
            Err(e) => Err(e),
        }
    }

    /// Replaces the command at `pos` by the edited values: an empty input
    /// keeps the current value of its field; tags are typed as a
    /// comma-separated list. The id and the last-used time stay. Refuses,
    /// changing nothing, when the command would move into another folder
    /// that already holds `MAX_ITEMS` entries.
    pub fn apply_edit(
        &mut self,
        pos: usize,
        cmd: &str,
        desc: &str,
        comment: &str,
        tags: &str,
        folder: &str,
    ) -> (r: Result<(), StoreError>)
        requires
            pos < old(self).commands@.len(),
            old(self).folders@.len() + old(self).commands@.len() < usize::MAX,
        ensures
            final(self).folders == old(self).folders,
            ({
                let target = if folder@.len() == 0 {
                    old(self).commands@[pos as int].folder@
                } else {
                    folder@
                };
                let full = target != old(self).commands@[pos as int].folder@ && old(self).item_count(target)
                    + 1 > MAX_ITEMS;
                &&& r is Err <==> full
                &&& r matches Err(e) ==> (e matches StoreError::FolderFull { folder: f, count } && f@
                    == target && count == old(self).item_count(target) + 1)
            }),
            r is Err ==> final(self).commands == old(self).commands,
            r is Ok ==> final(self).commands@.len() == old(self).commands@.len(),
            r is Ok ==> forall|k: int|
                0 <= k < old(self).commands@.len() && k != pos ==> #[trigger] final(self).commands@[k]
                    == old(self).commands@[k],
            r is Ok ==> ({
                let c = old(self).commands@[pos as int]@;
                let e = final(self).commands@[pos as int]@;
                &&& e.id == c.id
                &&& e.last_used == c.last_used
                &&& e.cmd == (if cmd@.len() == 0 {
                    c.cmd
                } else {
                    cmd@
                })
                &&& e.desc == (if desc@.len() == 0 {
                    c.desc
                } else {
                    desc@
                })
                &&& e.comment == (if comment@.len() == 0 {
                    c.comment
                } else {
                    comment@
                })
                &&& e.tags == (if tags@.len() == 0 {
                    c.tags
                } else {
                    tag_list(tags@)
                })
                &&& e.folder == (if folder@.len() == 0 {
                    c.folder
                } else {
                    folder@
                })
            }),
    {
        let target = keep_or_replace(&self.commands[pos].folder, folder);
        if !same_text(target.as_str(), self.commands[pos].folder.as_str()) {
            let count = self.count_folders_under(&target) + self.count_commands_in(&target);
            proof {
                broadcast use vstd::seq_lib::group_filter_ensures;
            }
            if count + 1 > MAX_ITEMS {
                return Err(StoreError::FolderFull { folder: target, count: count + 1 });
            }
        }
        let current = &self.commands[pos];
        let new_tags = if tags.is_empty() {
            copy_texts(&current.tags)
        } else {
            parse_tags(tags)
        };
        let edited = Command {
            id: current.id,
            folder: keep_or_replace(&current.folder, folder),
            cmd: keep_or_replace(&current.cmd, cmd),
            desc: keep_or_replace(&current.desc, desc),
            comment: keep_or_replace(&current.comment, comment),
            tags: new_tags,
            last_used: current.last_used.clone(),
        };
        self.commands.set(pos, edited);
        Ok(())
    }
}

/// The id does not occur among the commands.
pub open spec fn command_id_absent(commands: Seq<Command>, id: u32) -> bool {
    forall|k: int| 0 <= k < commands.len() ==> #[trigger] commands[k].id != id
}

/// The id does not occur among the folders.
pub open spec fn folder_id_absent(folders: Seq<Folder>, id: Seq<char>) -> bool {
    forall|k: int| 0 <= k < folders.len() ==> #[trigger] folders[k].id@ != id
}

/// Keeps the commands of `imported` whose id is not in `local`.
pub open spec fn new_command_of(local: Store) -> spec_fn(Command) -> bool {
    |c: Command| command_id_absent(local.commands@, c.id)
}

/// Keeps the folders of `imported` whose id is not in `local`.
pub open spec fn new_folder_of(local: Store) -> spec_fn(Folder) -> bool {
    |f: Folder| folder_id_absent(local.folders@, f.id@)
}

/// Whether some command of the list has the id.
pub fn has_command_id(commands: &Vec<Command>, id: u32) -> (r: bool)
    ensures
        r == !command_id_absent(commands@, id),
{
    for k in 0..commands.len()
        invariant
            forall|j: int| 0 <= j < k ==> #[trigger] commands@[j].id != id,
    {
        if commands[k].id == id {
            return true;
        }
    }
    false
}

/// Whether some folder of the list has the id.
pub fn has_folder_id(folders: &Vec<Folder>, id: &String) -> (r: bool)
    ensures
        r == !folder_id_absent(folders@, id@),
{
    for k in 0..folders.len()
        invariant
            forall|j: int| 0 <= j < k ==> #[trigger] folders@[j].id@ != id@,
    {
        if folders[k].id == *id {
            return true;
        }
    }
    false
}

/// What importing `imported` over `local` would add: the number of its
/// commands and of its folders whose ids `local` does not have.
pub fn import_preview(local: &Store, imported: &Store) -> (r: (usize, usize))
    ensures
        r.0 == imported.commands@.filter(new_command_of(*local)).len(),
        r.1 == imported.folders@.filter(new_folder_of(*local)).len(),
{
    let mut new_commands: usize = 0;
    let n = imported.commands.len();
    for i in 0..n
        invariant
            n == imported.commands@.len(),
            new_commands == imported.commands@.take(i as int).filter(new_command_of(*local)).len(),
            new_commands <= i,
    {
        assert(imported.commands@.take(i + 1) =~= imported.commands@.take(i as int).push(
            imported.commands@[i as int],
        ));
        proof {
            imported.commands@.take(i as int).lemma_filter_push(
                imported.commands@[i as int],
                new_command_of(*local),
            );
        }
        if !has_command_id(&local.commands, imported.commands[i].id) {
            new_commands = new_commands + 1;
        }
    }
    assert(imported.commands@.take(n as int) =~= imported.commands@);
    let mut new_folders: usize = 0;
    let m = imported.folders.len();
    for i in 0..m
        invariant
            m == imported.folders@.len(),
            new_folders == imported.folders@.take(i as int).filter(new_folder_of(*local)).len(),
            new_folders <= i,
    {
        assert(imported.folders@.take(i + 1) =~= imported.folders@.take(i as int).push(
            imported.folders@[i as int],
        ));
        proof {
            imported.folders@.take(i as int).lemma_filter_push(
                imported.folders@[i as int],
                new_folder_of(*local),
            );
        }
        if !has_folder_id(&local.folders, &imported.folders[i].id) {
            new_folders = new_folders + 1;
        }
    }
    assert(imported.folders@.take(m as int) =~= imported.folders@);
    (new_commands, new_folders)
}

impl Store {
    /// Whether walking up from the folder `id` ends within as many steps as
    /// there are folders (see `chain_ends`).
    pub fn reaches_root(&self, id: &String) -> (r: bool)
        ensures
            r == self.chain_ends(id@),
    {
        let ghost fs = self.folders@;
        let ghost total = fs.len();
        let mut current = id.clone();
        let mut fuel: usize = self.folders.len();
        loop
            invariant
                fs == self.folders@,
                total == fs.len(),
                (walk_names(fs, id@, total) is Some) == (walk_names(fs, current@, fuel as nat) is Some),
            decreases fuel,
        {
            match self.find_folder(&current) {
                None => {
                    return true;
                },
                Some(k) => {
                    let f = &self.folders[k];
                    if f.parent.as_str().is_empty() || f.parent == current {
                        return true;
                    }
                    if fuel == 0 {
                        return false;
                    }
                    current = f.parent.clone();
                    fuel = fuel - 1;
                },
            }
        }
    }
}

} // verus!
