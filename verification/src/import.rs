//! Playlist import: creates one private playlist and populates it with the
//! resolved identifiers in batches of at most 100, the service's documented
//! per-request limit.
//!
//! The import is a small state machine. The surrounding program asks it for
//! the next remote call to make, performs the call, and reports the outcome
//! back; the machine decides every transition. Each batch is inserted at the
//! position equal to the count of items requested before it (0, 100, 200,
//! ...), counted optimistically: positions are not reconciled against the
//! service's actual playlist length. Any failed call aborts the run; nothing
//! is retried.

use vstd::prelude::*;
use crate::resolve::TrackId;

verus! {

/// The service accepts at most this many items in one add-items request.
pub const CHUNK_LIMIT: usize = 100;

/// One add-items request: a batch of identifiers and the position at which
/// they are inserted.
pub struct AddRequest {
    pub items: Vec<TrackId>,
    pub position: usize,
}

/// How many batches a list of the given length is cut into: the least number
/// of chunks of at most 100 items each that cover it.
pub open spec fn chunk_count(len: int) -> int {
    (len + 99) / 100
}

/// The items of the batch at the given index: the ids from position
/// `100 * index` up to the end of the list or 100 items on, whichever
/// comes first.
pub open spec fn chunk_of(ids: Seq<TrackId>, index: int) -> Seq<TrackId> {
    ids.subrange(
        index * 100,
        if index * 100 + 100 <= ids.len() {
            index * 100 + 100
        } else {
            ids.len() as int
        },
    )
}

/// The whole plan for a list: batch `i` holds `chunk_of(ids, i)` at position
/// `100 * i`.
pub open spec fn plan_matches(ids: Seq<TrackId>, plan: Seq<AddRequest>) -> bool {
    &&& plan.len() == chunk_count(ids.len() as int)
    &&& forall|i: int|
        0 <= i < plan.len() ==> #[trigger] plan[i].items@ == chunk_of(ids, i) && plan[i].position
            == i * 100
}

/// Cuts the resolved list into consecutive batches of at most 100 items,
/// each paired with its insertion position (0, 100, 200, ...).
pub fn plan_chunks(track_ids: &Vec<TrackId>) -> (plan: Vec<AddRequest>)
    ensures
        plan_matches(track_ids@, plan@),
{
    let len = track_ids.len();
    let n_chunks = if len == 0 {
        0
    } else {
        (len - 1) / CHUNK_LIMIT + 1
    };
    proof {
        assert(n_chunks == chunk_count(len as int));
    }
    let mut plan: Vec<AddRequest> = Vec::new();
    let mut c: usize = 0;
    while c < n_chunks
        invariant
            c <= n_chunks,
            n_chunks == chunk_count(track_ids@.len() as int),
            len == track_ids@.len(),
            plan@.len() == c,
            forall|i: int|
                0 <= i < c ==> #[trigger] plan@[i].items@ == chunk_of(track_ids@, i)
                    && plan@[i].position == i * 100,
        decreases n_chunks - c,
    {
        proof {
            assert((c as int) * 100 < len as int) by (nonlinear_arith)
                requires
                    0 <= c as int,
                    (c as int) < ((len as int) + 99) / 100,
            ;
        }
        let start = c * CHUNK_LIMIT;
        let end = if len - start >= CHUNK_LIMIT {
            start + CHUNK_LIMIT
        } else {
            len
        };
        let mut items: Vec<TrackId> = Vec::new();
        let mut j = start;
        proof {
            assert(items@ =~= track_ids@.subrange(start as int, start as int));
        }
        while j < end
            invariant
                start <= j <= end,
                end <= track_ids@.len(),
                items@ == track_ids@.subrange(start as int, j as int),
            decreases end - j,
        {
            items.push(track_ids[j].clone());
            j += 1;
            proof {
                assert(items@ =~= track_ids@.subrange(start as int, j as int));
            }
        }
        proof {
            assert(items@ =~= chunk_of(track_ids@, c as int));
        }
        plan.push(AddRequest { items, position: start });
        c += 1;
    }
    proof {
        assert forall|i: int| 0 <= i < plan@.len() implies #[trigger] plan@[i].items@ == chunk_of(
            track_ids@,
            i,
        ) && plan@[i].position == i * 100 by {}
        assert(plan_matches(track_ids@, plan@));
    }
    plan
}

/// Where the import stands: which remote call is owed next, or how it ended.
pub enum ImportState {
    /// The current user's identifier has not been fetched yet.
    NeedUser,
    /// The user is known; the playlist has not been created yet.
    NeedPlaylist { user_id: String },
    /// The playlist exists; the batches before `next` have been accepted.
    Adding { playlist_id: String, next: usize },
    /// Every batch was accepted.
    Completed { playlist_id: String },
    /// A remote call failed; the run is aborted.
    Failed,
}

/// What one remote call answered.
pub enum ImportEvent {
    GotUser(String),
    GotPlaylist(String),
    ChunkAccepted,
    CallFailed,
}

/// The next remote call to make, or how to finish.
pub enum ImportAction {
    /// Fetch the current user's identifier.
    FetchUser,
    /// Create a playlist with this owner, name and visibility.
    CreatePlaylist { user_id: String, name: String, public: bool, collaborative: bool },
    /// Add one batch of items at the given position.
    AddChunk { playlist_id: String, items: Vec<TrackId>, position: usize },
    /// Every batch was accepted; report success.
    Finish { playlist_id: String },
    /// A call failed; abort without further requests.
    Abort,
}

/// The transition relation of the import: the state after one event, with
/// `n_chunks` batches planned. Any failure, and any answer the current state
/// did not ask for, aborts the run.
pub open spec fn import_step(s: ImportState, e: ImportEvent, n_chunks: int) -> ImportState {
    match (s, e) {
        (ImportState::NeedUser, ImportEvent::GotUser(user_id)) => ImportState::NeedPlaylist {
            user_id,
        },
        (ImportState::NeedPlaylist { .. }, ImportEvent::GotPlaylist(playlist_id)) => {
            if n_chunks == 0 {
                ImportState::Completed { playlist_id }
            } else {
                ImportState::Adding { playlist_id, next: 0 }
            }
        },
        (ImportState::Adding { playlist_id, next }, ImportEvent::ChunkAccepted) => {
            if next + 1 == n_chunks {
                ImportState::Completed { playlist_id }
            } else {
                ImportState::Adding { playlist_id, next: (next + 1) as usize }
            }
        },
        _ => ImportState::Failed,
    }
}

/// Drives one playlist import: holds the playlist name, the planned batches,
/// and the current state.
pub struct Importer {
    pub name: String,
    pub plan: Vec<AddRequest>,
    pub state: ImportState,
}

impl Importer {
    /// The states the machine can reach: while batches are being added, the
    /// next batch exists.
    pub open spec fn wf(&self) -> bool {
        match self.state {
            ImportState::Adding { next, .. } => next < self.plan@.len(),
            _ => true,
        }
    }

    /// The import has ended, well or badly.
    pub open spec fn done(&self) -> bool {
        self.state is Completed || self.state is Failed
    }

    /// A fresh import of the given list under the given playlist name,
    /// batched into chunks of at most 100.
    pub fn new(name: String, track_ids: &Vec<TrackId>) -> (r: Importer)
        ensures
            r.wf(),
            r.state == ImportState::NeedUser,
            r.name == name,
            plan_matches(track_ids@, r.plan@),
    {
        let plan = plan_chunks(track_ids);
        Importer { name, plan, state: ImportState::NeedUser }
    }

    /// The remote call owed in the current state: fetch the user, create the
    /// playlist private and non-collaborative, add the next batch, or stop.
    pub fn next_action(&self) -> (a: ImportAction)
        requires
            self.wf(),
        ensures
            match self.state {
                ImportState::NeedUser => a == ImportAction::FetchUser,
                ImportState::NeedPlaylist { user_id } => a == (ImportAction::CreatePlaylist {
                    user_id,
                    name: self.name,
                    public: false,
                    collaborative: false,
                }),
                ImportState::Adding { playlist_id, next } => {
                    &&& a matches ImportAction::AddChunk {
                        playlist_id: action_playlist,
                        items,
                        position,
                    }
                    &&& action_playlist == playlist_id
                    &&& items@ == self.plan@[next as int].items@
                    &&& position == self.plan@[next as int].position
                },
                ImportState::Completed { playlist_id } => a == (ImportAction::Finish {
                    playlist_id,
                }),
                ImportState::Failed => a == ImportAction::Abort,
            },
    {
        match &self.state {
            ImportState::NeedUser => ImportAction::FetchUser,
            ImportState::NeedPlaylist { user_id } => ImportAction::CreatePlaylist {
                user_id: user_id.clone(),
                name: self.name.clone(),
                public: false,
                collaborative: false,
            },
            ImportState::Adding { playlist_id, next } => {
                let req = &self.plan[*next];
                let mut items: Vec<TrackId> = Vec::new();
                let mut j: usize = 0;
                proof {
                    assert(items@ =~= req.items@.take(0));
                }
                while j < req.items.len()
                    invariant
                        j <= req.items@.len(),
                        items@ == req.items@.take(j as int),
                    decreases req.items@.len() - j,
                {
                    items.push(req.items[j].clone());
                    j += 1;
                    proof {
                        assert(items@ =~= req.items@.take(j as int));
                    }
                }
                proof {
                    assert(items@ =~= req.items@);
                }
                ImportAction::AddChunk {
                    playlist_id: playlist_id.clone(),
                    items,
                    position: req.position,
                }
            },
            ImportState::Completed { playlist_id } => ImportAction::Finish {
                playlist_id: playlist_id.clone(),
            },
            ImportState::Failed => ImportAction::Abort,
        }
    }

    /// Advances the machine by one answered call, exactly along
    /// `import_step`; the name and the plan never change.
    pub fn on_event(&mut self, event: ImportEvent)
        requires
            old(self).wf(),
        ensures
            final(self).wf(),
            final(self).name == old(self).name,
            final(self).plan == old(self).plan,
            final(self).state == import_step(old(self).state, event, old(self).plan@.len() as int),
    {
        let n_chunks = self.plan.len();
        let state = match (&self.state, event) {
            (ImportState::NeedUser, ImportEvent::GotUser(user_id)) => ImportState::NeedPlaylist {
                user_id,
            },
            (ImportState::NeedPlaylist { .. }, ImportEvent::GotPlaylist(playlist_id)) => {
                if n_chunks == 0 {
                    ImportState::Completed { playlist_id }
                } else {
                    ImportState::Adding { playlist_id, next: 0 }
                }
            },
            (ImportState::Adding { playlist_id, next }, ImportEvent::ChunkAccepted) => {
                if *next + 1 == n_chunks {
                    ImportState::Completed { playlist_id: playlist_id.clone() }
                } else {
                    ImportState::Adding { playlist_id: playlist_id.clone(), next: *next + 1 }
                }
            },
            _ => ImportState::Failed,
        };
        self.state = state;
    }
}

/// Law: a failed call aborts the run from any state: the machine moves to
/// `Failed`, where the only action is to abort, so no further batch is
/// requested and no earlier batch is requested again.
pub proof fn lemma_failure_aborts(s: ImportState, n_chunks: int)
    ensures
        import_step(s, ImportEvent::CallFailed, n_chunks) == ImportState::Failed,
{
}

/// Law: with no batches planned, a created playlist completes the run at
/// once: zero add-items requests are ever owed.
pub proof fn lemma_empty_import_completes(user_id: String, playlist_id: String)
    ensures
        chunk_count(0) == 0,
        import_step(
            ImportState::NeedPlaylist { user_id },
            ImportEvent::GotPlaylist(playlist_id),
            0,
        ) == (ImportState::Completed { playlist_id }),
{
}

/// Law: batching a list of length `len` yields `(len + 99) / 100` batches
/// (the ceiling of `len / 100`); every batch holds exactly 100 items except
/// possibly the last, which holds the remainder; batch `i` sits at position
/// `100 * i`, the count of items requested before it.
pub proof fn lemma_chunk_shape(ids: Seq<TrackId>, i: int)
    requires
        0 <= i < chunk_count(ids.len() as int),
    ensures
        chunk_of(ids, i).len() == if i == chunk_count(ids.len() as int) - 1 {
            ids.len() - i * 100
        } else {
            100 as int
        },
        0 < chunk_of(ids, i).len() <= 100,
{
    let len = ids.len() as int;
    assert(i * 100 < len) by (nonlinear_arith)
        requires
            0 <= i,
            i < (len + 99) / 100,
    ;
    if i == chunk_count(len) - 1 {
        assert(len <= i * 100 + 100) by (nonlinear_arith)
            requires
                0 <= i,
                i == (len + 99) / 100 - 1,
        ;
    } else {
        assert(i * 100 + 100 <= len) by (nonlinear_arith)
            requires
                0 <= i,
                i < (len + 99) / 100 - 1,
        ;
    }
}

} // verus!
