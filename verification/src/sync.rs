//! Comparing the local command store with a remote one before a sync.
use vstd::prelude::*;
use crate::config::Config;
use crate::store::{Store, Command, command_index, has_duplicate_ids, lemma_command_index_from};

verus! {

/// The remote command's id is not used by any local command.
pub open spec fn new_in(local: Seq<Command>) -> spec_fn(Command) -> bool {
    |c: Command| command_index(local, c.id) is None
}

/// The first local command with the remote command's id has another
/// command text.
pub open spec fn modified_in(local: Seq<Command>) -> spec_fn(Command) -> bool {
    |c: Command|
        match command_index(local, c.id) {
            Some(k) => local[k].cmd@ != c.cmd@,
            None => false,
        }
}

/// The ids of the commands, in order.
pub open spec fn ids_of(commands: Seq<Command>) -> Seq<u32> {
    commands.map_values(|c: Command| c.id)
}

/// The differences of `remote` from `local`, in the order of the remote
/// commands: the ids of the new commands (not in `local`), the ids of the
/// modified commands (in `local` with another command text), and the
/// conflicting ids, which are the modified ones.
pub fn diff_stores(local: &Store, remote: &Store) -> (r: (Vec<u32>, Vec<u32>, Vec<u32>))
    ensures
        r.0@ == ids_of(remote.commands@.filter(new_in(local.commands@))),
        r.1@ == ids_of(remote.commands@.filter(modified_in(local.commands@))),
        r.2@ == r.1@,
{
    let mut new_ids: Vec<u32> = Vec::new();
    let mut modified_ids: Vec<u32> = Vec::new();
    let n = remote.commands.len();
    for i in 0..n
        invariant
            n == remote.commands@.len(),
            new_ids@ == ids_of(remote.commands@.take(i as int).filter(new_in(local.commands@))),
            modified_ids@ == ids_of(
                remote.commands@.take(i as int).filter(modified_in(local.commands@)),
            ),
    {
        let rc = &remote.commands[i];
        let ghost prefix = remote.commands@.take(i as int);
        assert(remote.commands@.take(i + 1) =~= prefix.push(*rc));
        proof {
            prefix.lemma_filter_push(*rc, new_in(local.commands@));
            prefix.lemma_filter_push(*rc, modified_in(local.commands@));
            prefix.filter(new_in(local.commands@)).lemma_push_map_commute(|c: Command| c.id, *rc);
            prefix.filter(modified_in(local.commands@)).lemma_push_map_commute(
                |c: Command| c.id,
                *rc,
            );
        }
        match local.command_position(rc.id) {
            None => {
                new_ids.push(rc.id);
            },
            Some(k) => {
                if local.commands[k].cmd != rc.cmd {
                    modified_ids.push(rc.id);
                }
            },
        }
    }
    assert(remote.commands@.take(n as int) =~= remote.commands@);
    let conflict_ids = modified_ids.clone();
    assert(conflict_ids@ =~= modified_ids@);
    (new_ids, modified_ids, conflict_ids)
}

/// What a comparison with the remote store found: how many of its commands
/// are new and how many are modified.
#[derive(Debug, Clone, Copy, PartialEq, Eq, Structural)]
pub struct SyncReview {
    pub new_count: usize,
    pub modified_count: usize,
}

impl SyncReview {
    /// Nothing to apply: no new and no modified command.
    pub fn up_to_date(&self) -> (r: bool)
        ensures
            r == (self.new_count == 0 && self.modified_count == 0),
    {
        self.new_count == 0 && self.modified_count == 0
    }
}

/// Compares the local store with the remote one (see `diff_stores`) and
/// counts the new and the modified commands; a sync asks before taking the
/// remote store over unless both counts are 0.
pub fn review_remote(local: &Store, remote: &Store) -> (r: SyncReview)
    ensures
        r.new_count == remote.commands@.filter(new_in(local.commands@)).len(),
        r.modified_count == remote.commands@.filter(modified_in(local.commands@)).len(),
{
    let (new_ids, modified_ids, _conflicts) = diff_stores(local, remote);
    SyncReview { new_count: new_ids.len(), modified_count: modified_ids.len() }
}

/// What the sync flow has just learnt.
#[derive(Debug)]
pub enum SyncEvent {
    /// A sync was asked for.
    Started,
    /// The network was checked.
    NetworkChecked { online: bool },
    /// The remote store was read.
    RemoteRead { remote: Store },
    /// The user answered whether to take the remote store over.
    Answered { yes: bool },
}

/// What the sync flow does next.
#[derive(Debug)]
pub enum SyncAction {
    /// Nothing to do: no remote source, or no network.
    Stop,
    /// Check that the network is reachable.
    CheckNetwork,
    /// Read the remote store at `url`.
    Fetch { url: String },
    /// Report the comparison: nothing to apply.
    UpToDate { review: SyncReview },
    /// Report the comparison and ask whether to take the remote store over.
    Ask { review: SyncReview },
    /// Write the remote store as the local one.
    Save,
    /// Keep the local store: the user declined.
    Cancel,
}

/// The next step of a sync of `local` under `config`, given what was just
/// learnt: with a remote source configured, check the network, then read
/// the remote store, compare it and ask before taking it over unless it
/// brings nothing new; stop quietly without a remote source or network.
pub fn sync_step(config: &Config, local: &Store, event: SyncEvent) -> (r: SyncAction)
    ensures
        match event {
            SyncEvent::Started => if config.remote_source() {
                r is CheckNetwork
            } else {
                r is Stop
            },
            SyncEvent::NetworkChecked { online } => if online {
                r matches SyncAction::Fetch { url } && url@ == config.commands_source.url@
            } else {
                r is Stop
            },
            SyncEvent::RemoteRead { remote } => {
                let new_count = remote.commands@.filter(new_in(local.commands@)).len();
                let modified_count = remote.commands@.filter(modified_in(local.commands@)).len();
                if new_count == 0 && modified_count == 0 {
                    r matches SyncAction::UpToDate { review } && review.new_count == 0
                        && review.modified_count == 0
                } else {
                    r matches SyncAction::Ask { review } && review.new_count == new_count
                        && review.modified_count == modified_count
                }
            },
            SyncEvent::Answered { yes } => if yes {
                r is Save
            } else {
                r is Cancel
            },
        },
{
    match event {
        SyncEvent::Started => {
            if config.sync_enabled() {
                SyncAction::CheckNetwork
            } else {
                SyncAction::Stop
            }
        },
        SyncEvent::NetworkChecked { online } => {
            if online {
                SyncAction::Fetch { url: config.commands_source.url.clone() }
            } else {
                SyncAction::Stop
            }
        },
        SyncEvent::RemoteRead { remote } => {
            let review = review_remote(local, &remote);
            if review.up_to_date() {
                SyncAction::UpToDate { review }
            } else {
                SyncAction::Ask { review }
            }
        },
        SyncEvent::Answered { yes } => {
            if yes {
                SyncAction::Save
            } else {
                SyncAction::Cancel
            }
        },
    }
}

/// What the comparison reports, in terms of the commands themselves: a
/// remote command whose id the local store lacks is new, and one whose id it
/// has is modified when its text differs, character by character, from that
/// of the first local command with its id; every id reported comes from
/// such a remote command.
pub proof fn lemma_diff_reports_changes(local: Store, remote: Store, new_ids: Seq<u32>, modified: Seq<u32>)
    requires
        new_ids == ids_of(remote.commands@.filter(new_in(local.commands@))),
        modified == ids_of(remote.commands@.filter(modified_in(local.commands@))),
    ensures
        forall|i: int|
            0 <= i < remote.commands@.len() && command_index(local.commands@, #[trigger] remote.commands@[i].id)
                is None ==> new_ids.contains(remote.commands@[i].id),
        forall|i: int|
            0 <= i < remote.commands@.len() && (command_index(
                local.commands@,
                #[trigger] remote.commands@[i].id,
            ) matches Some(k) && local.commands@[k].cmd@ != remote.commands@[i].cmd@) ==> modified.contains(
                remote.commands@[i].id,
            ),
        forall|x: u32|
            #[trigger] new_ids.contains(x) ==> exists|i: int|
                0 <= i < remote.commands@.len() && (#[trigger] remote.commands@[i]).id == x
                    && command_index(local.commands@, x) is None,
        forall|x: u32|
            #[trigger] modified.contains(x) ==> exists|i: int|
                0 <= i < remote.commands@.len() && (#[trigger] remote.commands@[i]).id == x && (command_index(
                    local.commands@,
                    x,
                ) matches Some(k) && local.commands@[k].cmd@ != remote.commands@[i].cmd@),
{
    let rs = remote.commands@;
    let nf = rs.filter(new_in(local.commands@));
    let mf = rs.filter(modified_in(local.commands@));
    assert forall|i: int|
        0 <= i < rs.len() && command_index(local.commands@, #[trigger] rs[i].id) is None implies new_ids.contains(
        rs[i].id,
    ) by {
        rs.lemma_filter_contains(new_in(local.commands@), i);
        let j = choose|j: int| 0 <= j < nf.len() && nf[j] == rs[i];
        assert(new_ids[j] == rs[i].id);
    }
    assert forall|i: int|
        0 <= i < rs.len() && (command_index(local.commands@, #[trigger] rs[i].id) matches Some(k)
            && local.commands@[k].cmd@ != rs[i].cmd@) implies modified.contains(rs[i].id) by {
        rs.lemma_filter_contains(modified_in(local.commands@), i);
        let j = choose|j: int| 0 <= j < mf.len() && mf[j] == rs[i];
        assert(modified[j] == rs[i].id);
    }
    assert forall|x: u32| #[trigger] new_ids.contains(x) implies exists|i: int|
        0 <= i < rs.len() && (#[trigger] rs[i]).id == x && command_index(local.commands@, x) is None by {
        let j = choose|j: int| 0 <= j < new_ids.len() && new_ids[j] == x;
        rs.lemma_filter_pred(new_in(local.commands@), j);
        assert(nf.contains(nf[j]));
        rs.lemma_filter_contains_rev(new_in(local.commands@), nf[j]);
        let i = choose|i: int| 0 <= i < rs.len() && rs[i] == nf[j];
        assert(rs[i].id == x);
    }
    assert forall|x: u32| #[trigger] modified.contains(x) implies exists|i: int|
        0 <= i < rs.len() && (#[trigger] rs[i]).id == x && (command_index(local.commands@, x) matches Some(k)
            && local.commands@[k].cmd@ != rs[i].cmd@) by {
        let j = choose|j: int| 0 <= j < modified.len() && modified[j] == x;
        rs.lemma_filter_pred(modified_in(local.commands@), j);
        assert(mf.contains(mf[j]));
        rs.lemma_filter_contains_rev(modified_in(local.commands@), mf[j]);
        let i = choose|i: int| 0 <= i < rs.len() && rs[i] == mf[j];
        assert(rs[i].id == x);
    }
}

/// The sync flow starts only for a remote source: its first step checks
/// the network exactly when the mode is "remote" and a URL is set, and
/// stops otherwise.
pub proof fn lemma_sync_needs_remote_mode(config: Config, r: SyncAction)
    requires
        if config.remote_source() {
            r is CheckNetwork
        } else {
            r is Stop
        },
    ensures
        r is CheckNetwork <==> (config.commands_source.mode@ == "remote"@
            && config.commands_source.url@.len() > 0),
        r is Stop <==> !(config.commands_source.mode@ == "remote"@ && config.commands_source.url@.len() > 0),
{
}

/// A store compared with itself has no new commands, and no modified ones
/// when its ids are unique: after a sync has taken the remote store, a new
/// comparison with the same remote store finds nothing to apply.
pub proof fn lemma_diff_with_itself(s: Store)
    requires
        !has_duplicate_ids(s.commands@),
    ensures
        s.commands@.filter(new_in(s.commands@)).len() == 0,
        s.commands@.filter(modified_in(s.commands@)).len() == 0,
{
    let cs = s.commands@;
    assert forall|i: int| 0 <= i < cs.len() implies command_index(cs, #[trigger] cs[i].id) == Some(i) by {
        lemma_command_index_from(cs, cs[i].id, 0);
        match command_index(cs, cs[i].id) {
            Some(j) => {
                if j < i {
                    assert(cs[j].id == cs[i].id);
                } else if j > i {
                    assert(cs[i].id != cs[i].id);
                }
            },
            None => {
            },
        }
    }
    lemma_no_diff_prefix(cs, cs.len() as int);
    assert(cs.take(cs.len() as int) =~= cs);
}

proof fn lemma_no_diff_prefix(cs: Seq<Command>, k: int)
    requires
        0 <= k <= cs.len(),
        forall|i: int| 0 <= i < cs.len() ==> command_index(cs, #[trigger] cs[i].id) == Some(i),
    ensures
        cs.take(k).filter(new_in(cs)).len() == 0,
        cs.take(k).filter(modified_in(cs)).len() == 0,
    decreases k,
{
    if k == 0 {
        assert(cs.take(0) =~= Seq::<Command>::empty());
        reveal(Seq::filter);
    } else {
        lemma_no_diff_prefix(cs, k - 1);
        assert(cs.take(k) =~= cs.take(k - 1).push(cs[k - 1]));
        cs.take(k - 1).lemma_filter_push(cs[k - 1], new_in(cs));
        cs.take(k - 1).lemma_filter_push(cs[k - 1], modified_in(cs));
        assert(command_index(cs, cs[k - 1].id) == Some(k - 1));
    }
}

} // verus!
