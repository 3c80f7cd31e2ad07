//! The download queue: items with their lifecycle state, and the scheduler
//! that bounds how many download operations run at once, admitting pending
//! items oldest-first.

use vstd::prelude::*;

use crate::errors::DownloadError;
use crate::url_validator::{is_valid_youtube_url, valid_youtube_url};

verus! {

/// Relies on `chrono::Utc::now` and `DateTime::timestamp_millis`: the current
/// wall-clock time in milliseconds. The value depends on the clock, so nothing
/// is promised of it; the scheduler guards every use.
#[verifier::external_body]
fn now_unix_millis() -> i64 {
    chrono::Utc::now().timestamp_millis()
}

/// Progress is held in thousandths, so `1000` stands for a finished download.
pub const PROGRESS_FULL: u32 = 1000;

#[derive(Clone, Debug)]
pub enum DownloadStatus {
    Pending,
    Downloading,
    Success,
    Failed(String),
}

pub ghost enum StatusModel {
    Pending,
    Downloading,
    Success,
    Failed(Seq<char>),
}

impl View for DownloadStatus {
    type V = StatusModel;

    open spec fn view(&self) -> StatusModel {
        match self {
            DownloadStatus::Pending => StatusModel::Pending,
            DownloadStatus::Downloading => StatusModel::Downloading,
            DownloadStatus::Success => StatusModel::Success,
            DownloadStatus::Failed(reason) => StatusModel::Failed(reason@),
        }
    }
}

impl DownloadStatus {
    pub fn is_pending(&self) -> (r: bool)
        ensures
            r == (self@ is Pending),
    {
        matches!(self, DownloadStatus::Pending)
    }

    pub fn is_downloading(&self) -> (r: bool)
        ensures
            r == (self@ is Downloading),
    {
        matches!(self, DownloadStatus::Downloading)
    }

    pub fn is_success(&self) -> (r: bool)
        ensures
            r == (self@ is Success),
    {
        matches!(self, DownloadStatus::Success)
    }

    /// A verified copy: derived `Clone` says nothing about the value it returns.
    pub fn duplicate(&self) -> (r: Self)
        ensures
            r@ == self@,
    {
        match self {
            DownloadStatus::Pending => DownloadStatus::Pending,
            DownloadStatus::Downloading => DownloadStatus::Downloading,
            DownloadStatus::Success => DownloadStatus::Success,
            DownloadStatus::Failed(reason) => DownloadStatus::Failed(reason.clone()),
        }
    }
}

/// One unit of work and its observable state.
#[derive(Clone, Debug)]
pub struct DownloadItem {
    pub id: u64,
    pub url: String,
    pub title: Option<String>,
    pub status: DownloadStatus,
    pub created_at: u64,
    pub progress: u32,
    pub file_path: Option<String>,
}

pub ghost struct ItemModel {
    pub id: u64,
    pub url: Seq<char>,
    pub title: Option<Seq<char>>,
    pub status: StatusModel,
    pub created_at: u64,
    pub progress: u32,
    pub file_path: Option<Seq<char>>,
}

pub open spec fn view_opt_string(o: Option<String>) -> Option<Seq<char>> {
    match o {
        Some(s) => Some(s@),
        None => None,
    }
}

impl View for DownloadItem {
    type V = ItemModel;

    open spec fn view(&self) -> ItemModel {
        ItemModel {
            id: self.id,
            url: self.url@,
            title: view_opt_string(self.title),
            status: self.status@,
            created_at: self.created_at,
            progress: self.progress,
            file_path: view_opt_string(self.file_path),
        }
    }
}

impl ItemModel {
    /// The per-item invariant: progress stays clamped, a successful item
    /// carries its output location, and a failure carries a reason.
    pub open spec fn wf(self) -> bool {
        &&& self.progress <= PROGRESS_FULL
        &&& (self.status is Success ==> self.file_path is Some)
        &&& (self.status matches StatusModel::Failed(reason) ==> reason.len() > 0)
    }
}

impl DownloadItem {
    /// A fresh item starts `Pending`, untitled, with no progress.
    pub fn new(id: u64, url: String, created_at: u64) -> (r: Self)
        ensures
            r@ == (ItemModel {
                id,
                url: url@,
                title: None,
                status: StatusModel::Pending,
                created_at,
                progress: 0,
                file_path: None,
            }),
    {
        DownloadItem {
            id,
            url,
            title: None,
            status: DownloadStatus::Pending,
            created_at,
            progress: 0,
            file_path: None,
        }
    }

    fn duplicate_opt_string(o: &Option<String>) -> (r: Option<String>)
        ensures
            view_opt_string(r) == view_opt_string(*o),
    {
        match o {
            Some(s) => Some(s.clone()),
            None => None,
        }
    }

    /// A verified copy: derived `Clone` says nothing about the value it returns.
    pub fn duplicate(&self) -> (r: Self)
        ensures
            r@ == self@,
    {
        DownloadItem {
            id: self.id,
            url: self.url.clone(),
            title: Self::duplicate_opt_string(&self.title),
            status: self.status.duplicate(),
            created_at: self.created_at,
            progress: self.progress,
            file_path: Self::duplicate_opt_string(&self.file_path),
        }
    }
}

/// How many items of the sequence are currently downloading.
pub open spec fn downloading_count(s: Seq<ItemModel>) -> nat
    decreases s.len(),
{
    if s.len() == 0 {
        0
    } else {
        downloading_count(s.drop_last()) + (if s.last().status is Downloading {
            1nat
        } else {
            0nat
        })
    }
}

pub proof fn lemma_downloading_count_le_len(s: Seq<ItemModel>)
    ensures
        downloading_count(s) <= s.len(),
    decreases s.len(),
{
    if s.len() > 0 {
        lemma_downloading_count_le_len(s.drop_last());
    }
}

pub proof fn lemma_downloading_count_push(s: Seq<ItemModel>, d: ItemModel)
    ensures
        downloading_count(s.push(d)) == downloading_count(s) + (if d.status is Downloading {
            1nat
        } else {
            0nat
        }),
{
    assert(s.push(d).drop_last() =~= s);
}

pub proof fn lemma_downloading_count_update(s: Seq<ItemModel>, i: int, d: ItemModel)
    requires
        0 <= i < s.len(),
    ensures
        downloading_count(s.update(i, d)) + (if s[i].status is Downloading {
            1nat
        } else {
            0nat
        }) == downloading_count(s) + (if d.status is Downloading {
            1nat
        } else {
            0nat
        }),
    decreases s.len(),
{
    let t = s.update(i, d);
    if i == s.len() - 1 {
        assert(t.drop_last() =~= s.drop_last());
    } else {
        assert(t.drop_last() =~= s.drop_last().update(i, d));
        lemma_downloading_count_update(s.drop_last(), i, d);
    }
}

pub proof fn lemma_downloading_count_remove(s: Seq<ItemModel>, i: int)
    requires
        0 <= i < s.len(),
    ensures
        downloading_count(s.remove(i)) + (if s[i].status is Downloading {
            1nat
        } else {
            0nat
        }) == downloading_count(s),
    decreases s.len(),
{
    let t = s.remove(i);
    if i == s.len() - 1 {
        assert(t =~= s.drop_last());
    } else {
        assert(t.drop_last() =~= s.drop_last().remove(i));
        assert(t.last() == s.last());
        lemma_downloading_count_remove(s.drop_last(), i);
    }
}

pub proof fn lemma_downloading_count_member(s: Seq<ItemModel>, i: int)
    requires
        0 <= i < s.len(),
        s[i].status is Downloading,
    ensures
        downloading_count(s) >= 1,
    decreases s.len(),
{
    if i == s.len() - 1 {
        lemma_downloading_count_le_len(s.drop_last());
    } else {
        lemma_downloading_count_member(s.drop_last(), i);
    }
}

/// Some item of the sequence is still waiting for admission.
pub open spec fn has_pending(s: Seq<ItemModel>) -> bool {
    exists|i: int| 0 <= i < s.len() && s[i].status is Pending
}

/// The position of the oldest pending item, or the length if none is pending.
/// Items are kept in creation order, so the first pending index is the
/// oldest-created pending item.
pub open spec fn first_pending_index(s: Seq<ItemModel>) -> int
    decreases s.len(),
{
    if s.len() == 0 {
        0
    } else if s[0].status is Pending {
        0
    } else {
        1 + first_pending_index(s.subrange(1, s.len() as int))
    }
}

pub proof fn lemma_first_pending_index(s: Seq<ItemModel>)
    ensures
        0 <= first_pending_index(s) <= s.len(),
        has_pending(s) <==> first_pending_index(s) < s.len(),
        first_pending_index(s) < s.len() ==> s[first_pending_index(s)].status is Pending,
        forall|j: int| 0 <= j < first_pending_index(s) ==> !((#[trigger] s[j]).status is Pending),
    decreases s.len(),
{
    if s.len() > 0 && !(s[0].status is Pending) {
        let tail = s.subrange(1, s.len() as int);
        lemma_first_pending_index(tail);
        assert(forall|i: int| 1 <= i < s.len() ==> s[i] == tail[i - 1]);
        if has_pending(s) {
            let w = choose|i: int| 0 <= i < s.len() && s[i].status is Pending;
            assert(tail[w - 1].status is Pending);
        }
        if has_pending(tail) {
            let w = choose|i: int| 0 <= i < tail.len() && tail[i].status is Pending;
            assert(s[w + 1].status is Pending);
        }
    }
}

/// An item entering the downloading state; nothing else about it changes.
pub open spec fn promote(d: ItemModel) -> ItemModel {
    ItemModel { status: StatusModel::Downloading, ..d }
}

/// One admission attempt: if a concurrency slot is free and some item is
/// pending, the oldest pending item starts downloading; otherwise nothing
/// changes.
pub open spec fn admit_step(items: Seq<ItemModel>, active: nat, max: nat) -> (Seq<ItemModel>, nat) {
    if active < max && has_pending(items) {
        let i = first_pending_index(items);
        (items.update(i, promote(items[i])), active + 1)
    } else {
        (items, active)
    }
}

/// The scheduler: owns the item collection, enforces the concurrency ceiling,
/// and reconciles completions back into item state.
pub struct DownloadManager {
    downloads: Vec<DownloadItem>,
    active_downloads: usize,
    max_concurrent: usize,
    next_id: u64,
    last_stamp: u64,
}

pub ghost struct QueueModel {
    pub items: Seq<ItemModel>,
    pub active: nat,
    pub max: nat,
    pub next_id: u64,
    pub last_stamp: u64,
}

impl View for DownloadManager {
    type V = QueueModel;

    closed spec fn view(&self) -> QueueModel {
        QueueModel {
            items: self.downloads@.map_values(|d: DownloadItem| d@),
            active: self.active_downloads as nat,
            max: self.max_concurrent as nat,
            next_id: self.next_id,
            last_stamp: self.last_stamp,
        }
    }
}

impl DownloadManager {
    /// The queue invariant: every item is well formed; items are kept in
    /// creation order with strictly increasing ids and stamps, both below the
    /// counters that assign them; the active count equals the number of items
    /// downloading; and the ceiling is at least one.
    pub open spec fn inv(&self) -> bool {
        let m = self@;
        &&& (forall|i: int| 0 <= i < m.items.len() ==> (#[trigger] m.items[i]).wf())
        &&& (forall|i: int, j: int|
            #![trigger m.items[i].id, m.items[j].id]
            0 <= i < j < m.items.len() ==> m.items[i].id < m.items[j].id)
        &&& (forall|i: int, j: int|
            #![trigger m.items[i].created_at, m.items[j].created_at]
            0 <= i < j < m.items.len() ==> m.items[i].created_at < m.items[j].created_at)
        &&& (forall|i: int| 0 <= i < m.items.len() ==> (#[trigger] m.items[i]).id < m.next_id)
        &&& (forall|i: int|
            0 <= i < m.items.len() ==> (#[trigger] m.items[i]).created_at <= m.last_stamp)
        &&& m.active == downloading_count(m.items)
        &&& m.max >= 1
    }

    /// A fresh scheduler: empty, nothing active, a ceiling of three.
    pub fn new() -> (r: Self)
        ensures
            r.inv(),
            r@.items.len() == 0,
            r@.active == 0,
            r@.max == 3,
            r@.next_id == 0,
            r@.last_stamp == 0,
    {
        let r = DownloadManager {
            downloads: Vec::new(),
            active_downloads: 0,
            max_concurrent: 3,
            next_id: 0,
            last_stamp: 0,
        };
        proof {
            assert(r@.items =~= Seq::<ItemModel>::empty());
        }
        r
    }

    fn find_first_pending(v: &Vec<DownloadItem>) -> (r: Option<usize>)
        ensures
            match r {
                Some(i) => i < v@.len() && v@[i as int]@.status is Pending && (forall|j: int|
                    0 <= j < i ==> !((#[trigger] v@[j])@.status is Pending)),
                None => forall|j: int| 0 <= j < v@.len() ==> !((#[trigger] v@[j])@.status is Pending),
            },
    {
        let n = v.len();
        let mut i: usize = 0;
        while i < n
            invariant
                i <= n,
                n == v@.len(),
                forall|j: int| 0 <= j < i ==> !((#[trigger] v@[j])@.status is Pending),
            decreases n - i,
        {
            if v[i].status.is_pending() {
                return Some(i);
            }
            i = i + 1;
        }
        None
    }

    fn find_index_of(v: &Vec<DownloadItem>, id: u64) -> (r: Option<usize>)
        ensures
            match r {
                Some(i) => i < v@.len() && v@[i as int]@.id == id && (forall|j: int|
                    0 <= j < i ==> (#[trigger] v@[j])@.id != id),
                None => forall|j: int| 0 <= j < v@.len() ==> (#[trigger] v@[j])@.id != id,
            },
    {
        let n = v.len();
        let mut i: usize = 0;
        while i < n
            invariant
                i <= n,
                n == v@.len(),
                forall|j: int| 0 <= j < i ==> (#[trigger] v@[j])@.id != id,
            decreases n - i,
        {
            if v[i].id == id {
                return Some(i);
            }
            i = i + 1;
        }
        None
    }

    /// One admission attempt: promote the oldest pending item to downloading
    /// if a slot under the ceiling is free.
    pub fn try_start_next_download(&mut self)
        requires
            old(self).inv(),
        ensures
            final(self).inv(),
            ({
                let stepped = admit_step(old(self)@.items, old(self)@.active, old(self)@.max);
                final(self)@ == (QueueModel { items: stepped.0, active: stepped.1, ..old(self)@ })
            }),
            old(self)@.active <= old(self)@.max ==> final(self)@.active <= final(self)@.max,
    {
        proof {
            lemma_first_pending_index(self@.items);
        }
        if self.active_downloads >= self.max_concurrent {
            proof {
                assert(self@ =~= (QueueModel {
                    items: admit_step(self@.items, self@.active, self@.max).0,
                    active: admit_step(self@.items, self@.active, self@.max).1,
                    ..self@
                }));
            }
            return ;
        }
        let found = Self::find_first_pending(&self.downloads);
        match found {
            None => {
                proof {
                    assert(!has_pending(self@.items));
                    assert(self@ =~= (QueueModel {
                        items: admit_step(self@.items, self@.active, self@.max).0,
                        active: admit_step(self@.items, self@.active, self@.max).1,
                        ..self@
                    }));
                }
            },
            Some(i) => {
                let ghost pre = self@;
                proof {
                    assert(pre.items[i as int].status is Pending);
                    assert(first_pending_index(pre.items) == i as int);
                    lemma_downloading_count_le_len(pre.items);
                }
                let promoted = DownloadItem {
                    status: DownloadStatus::Downloading,
                    ..self.downloads[i].duplicate()
                };
                proof {
                    assert(promoted@ == promote(pre.items[i as int]));
                }
                self.downloads[i] = promoted;
                self.active_downloads = self.active_downloads + 1;
                proof {
                    assert(self@.items =~= pre.items.update(i as int, promote(pre.items[i as int])));
                    lemma_downloading_count_update(
                        pre.items,
                        i as int,
                        promote(pre.items[i as int]),
                    );
                    assert(self@ =~= (QueueModel {
                        items: admit_step(pre.items, pre.active, pre.max).0,
                        active: admit_step(pre.items, pre.active, pre.max).1,
                        ..pre
                    }));
                }
            },
        }
    }
    /// All items, most recently created first (creation stamps grow along the
    /// internal order, so the snapshot is its reverse).
    pub fn get_downloads(&self) -> (r: Vec<DownloadItem>)
        requires
            self.inv(),
        ensures
            r@.len() == self@.items.len(),
            forall|k: int| 0 <= k < r@.len() ==> (#[trigger] r@[k])@ == self@.items[self@.items.len()
                - 1 - k],
            forall|k: int, l: int|
                #![trigger r@[k], r@[l]]
                0 <= k < l < r@.len() ==> r@[k]@.created_at > r@[l]@.created_at,
    {
        let n = self.downloads.len();
        let mut out: Vec<DownloadItem> = Vec::new();
        let mut i: usize = n;
        while i > 0
            invariant
                i <= n,
                n == self@.items.len(),
                self.inv(),
                out@.len() == n - i,
                forall|k: int| 0 <= k < out@.len() ==> (#[trigger] out@[k])@ == self@.items[n - 1
                    - k],
            decreases i,
        {
            i = i - 1;
            let copy = self.downloads[i].duplicate();
            out.push(copy);
        }
        out
    }

    /// Progress writes are clamped into the allowed range; an unknown id is
    /// silently ignored, so late updates for removed items are harmless.
    pub fn update_download_progress(&mut self, id: u64, progress: i64)
        requires
            old(self).inv(),
        ensures
            final(self).inv(),
            !has_id(old(self)@.items, id) ==> final(self)@ == old(self)@,
            forall|i: int|
                #![trigger old(self)@.items[i]]
                0 <= i < old(self)@.items.len() && old(self)@.items[i].id == id ==> final(self)@
                    == (QueueModel {
                    items: old(self)@.items.update(
                        i,
                        (ItemModel {
                            progress: clamp_progress(progress as int) as u32,
                            ..old(self)@.items[i]
                        }),
                    ),
                    ..old(self)@
                }),
            final(self)@.active == old(self)@.active && final(self)@.max == old(self)@.max,
    {
        let found = Self::find_index_of(&self.downloads, id);
        match found {
            None => {},
            Some(i) => {
                let ghost pre = self@;
                let clamped: u32 = if progress < 0 {
                    0
                } else if progress > PROGRESS_FULL as i64 {
                    PROGRESS_FULL
                } else {
                    progress as u32
                };
                let updated = DownloadItem { progress: clamped, ..self.downloads[i].duplicate() };
                self.downloads[i] = updated;
                proof {
                    assert(self@.items =~= pre.items.update(i as int, updated@));
                    lemma_downloading_count_update(pre.items, i as int, updated@);
                    assert(forall|j: int|
                        0 <= j < pre.items.len() && (#[trigger] pre.items[j]).id == id ==> j
                            == i as int);
                }
            },
        }
    }

    /// Record the title that metadata probing resolved; unknown ids are ignored.
    pub fn update_download_title(&mut self, id: u64, title: String)
        requires
            old(self).inv(),
        ensures
            final(self).inv(),
            !has_id(old(self)@.items, id) ==> final(self)@ == old(self)@,
            forall|i: int|
                #![trigger old(self)@.items[i]]
                0 <= i < old(self)@.items.len() && old(self)@.items[i].id == id ==> final(self)@
                    == (QueueModel {
                    items: old(self)@.items.update(
                        i,
                        (ItemModel { title: Some(title@), ..old(self)@.items[i] }),
                    ),
                    ..old(self)@
                }),
            final(self)@.active == old(self)@.active && final(self)@.max == old(self)@.max,
    {
        let found = Self::find_index_of(&self.downloads, id);
        match found {
            None => {},
            Some(i) => {
                let ghost pre = self@;
                let updated = DownloadItem { title: Some(title), ..self.downloads[i].duplicate() };
                self.downloads[i] = updated;
                proof {
                    assert(self@.items =~= pre.items.update(i as int, updated@));
                    lemma_downloading_count_update(pre.items, i as int, updated@);
                    assert(forall|j: int|
                        0 <= j < pre.items.len() && (#[trigger] pre.items[j]).id == id ==> j
                            == i as int);
                }
            },
        }
    }

    /// Set the concurrency ceiling, clamped to at least one. Items already
    /// downloading are not cancelled; future admission respects the new value.
    pub fn set_max_concurrent(&mut self, max: usize)
        requires
            old(self).inv(),
        ensures
            final(self).inv(),
            final(self)@ == (QueueModel {
                max: if max < 1 {
                    1nat
                } else {
                    max as nat
                },
                ..old(self)@
            }),
    {
        self.max_concurrent = if max < 1 {
            1
        } else {
            max
        };
    }

    fn complete_at(&mut self, i: usize, finished: DownloadItem, id: u64)
        requires
            old(self).inv(),
            i < old(self)@.items.len(),
            old(self)@.items[i as int].id == id,
            old(self)@.items[i as int].status is Downloading,
            finished@.wf(),
            finished@.id == old(self)@.items[i as int].id,
            finished@.created_at == old(self)@.items[i as int].created_at,
            !(finished@.status is Downloading),
        ensures
            final(self).inv(),
            ({
                let stepped = admit_step(
                    old(self)@.items.update(i as int, finished@),
                    (old(self)@.active - 1) as nat,
                    old(self)@.max,
                );
                final(self)@ == (QueueModel { items: stepped.0, active: stepped.1, ..old(self)@ })
            }),
            old(self)@.active <= old(self)@.max ==> final(self)@.active <= final(self)@.max,
    {
        let ghost pre = self@;
        proof {
            lemma_downloading_count_member(pre.items, i as int);
        }
        self.downloads[i] = finished;
        self.active_downloads = self.active_downloads - 1;
        proof {
            assert(self@.items =~= pre.items.update(i as int, finished@));
            lemma_downloading_count_update(pre.items, i as int, finished@);
        }
        self.try_start_next_download();
    }

    /// Record a finished download: the item becomes `Success`, carries the
    /// produced file, shows full progress, and the freed slot is re-offered
    /// to the oldest pending item. Only a downloading item can finish; an
    /// unknown id or any other state leaves the queue unchanged.
    pub fn mark_success(&mut self, id: u64, file_path: String)
        requires
            old(self).inv(),
        ensures
            final(self).inv(),
            complete_spec(
                old(self)@,
                final(self)@,
                id,
                CompletionModel::Succeeded(file_path@),
            ),
            old(self)@.active <= old(self)@.max ==> final(self)@.active <= final(self)@.max,
    {
        let found = Self::find_index_of(&self.downloads, id);
        match found {
            None => {},
            Some(i) => {
                if self.downloads[i].status.is_downloading() {
                    let ghost pre = self@;
                    let finished = DownloadItem {
                        status: DownloadStatus::Success,
                        file_path: Some(file_path),
                        progress: PROGRESS_FULL,
                        ..self.downloads[i].duplicate()
                    };
                    proof {
                        assert(forall|j: int|
                            0 <= j < i as int ==> (#[trigger] pre.items[j]).id != id);
                        assert(pre.items[i as int].id == id);
                        lemma_sorted_id_unique(pre.items, i as int, id);
                    }
                    self.complete_at(i, finished, id);
                }
            },
        }
    }

    /// Record a failed download: the item becomes `Failed` with the given
    /// reason (a fixed text stands in when the reason is empty), and the freed
    /// slot is re-offered. Only a downloading item can fail; an unknown id or
    /// any other state leaves the queue unchanged.
    pub fn mark_failed(&mut self, id: u64, reason: String)
        requires
            old(self).inv(),
        ensures
            final(self).inv(),
            complete_spec(old(self)@, final(self)@, id, CompletionModel::Failed(reason@)),
            old(self)@.active <= old(self)@.max ==> final(self)@.active <= final(self)@.max,
    {
        let found = Self::find_index_of(&self.downloads, id);
        match found {
            None => {},
            Some(i) => {
                if self.downloads[i].status.is_downloading() {
                    let ghost pre = self@;
                    let stored = if reason.as_str().is_empty() {
                        let d = String::from_str("download failed");
                        proof {
                            reveal_strlit("download failed");
                        }
                        d
                    } else {
                        reason
                    };
                    let finished = DownloadItem {
                        status: DownloadStatus::Failed(stored),
                        ..self.downloads[i].duplicate()
                    };
                    proof {
                        assert(forall|j: int|
                            0 <= j < i as int ==> (#[trigger] pre.items[j]).id != id);
                        assert(pre.items[i as int].id == id);
                        lemma_sorted_id_unique(pre.items, i as int, id);
                    }
                    self.complete_at(i, finished, id);
                }
            },
        }
    }

    /// Apply a reported status change. Only completions act: a `Success`
    /// report records the generic success text as the file location, a
    /// `Failed` report records its reason; `Pending` or `Downloading` reports
    /// change nothing, as admission alone may start work.
    pub fn update_download_status(&mut self, id: u64, status: DownloadStatus)
        requires
            old(self).inv(),
        ensures
            final(self).inv(),
            match status@ {
                StatusModel::Success => complete_spec(
                    old(self)@,
                    final(self)@,
                    id,
                    CompletionModel::Succeeded("Download completed"@),
                ),
                StatusModel::Failed(reason) => complete_spec(
                    old(self)@,
                    final(self)@,
                    id,
                    CompletionModel::Failed(reason),
                ),
                _ => final(self)@ == old(self)@,
            },
            old(self)@.active <= old(self)@.max ==> final(self)@.active <= final(self)@.max,
    {
        match status {
            DownloadStatus::Success => {
                self.mark_success(id, String::from_str("Download completed"));
            },
            DownloadStatus::Failed(reason) => {
                self.mark_failed(id, reason);
            },
            _ => {},
        }
    }

    /// Remove an item whatever its state; the removed item is handed back.
    /// Removing an item that was downloading frees its slot at once and
    /// re-offers it (the underlying process, if any, is not cancelled, and its
    /// late reports will find no item and be discarded).
    pub fn remove_download(&mut self, id: u64) -> (r: Option<DownloadItem>)
        requires
            old(self).inv(),
        ensures
            final(self).inv(),
            !has_id(old(self)@.items, id) ==> r is None && final(self)@ == old(self)@,
            forall|i: int|
                #![trigger old(self)@.items[i]]
                0 <= i < old(self)@.items.len() && old(self)@.items[i].id == id ==> (r matches Some(
                    d,
                ) && d@ == old(self)@.items[i]) && (if old(self)@.items[i].status is Downloading {
                    let stepped = admit_step(
                        old(self)@.items.remove(i),
                        (old(self)@.active - 1) as nat,
                        old(self)@.max,
                    );
                    final(self)@ == (QueueModel {
                        items: stepped.0,
                        active: stepped.1,
                        ..old(self)@
                    })
                } else {
                    final(self)@ == (QueueModel { items: old(self)@.items.remove(i), ..old(self)@ })
                }),
            old(self)@.active <= old(self)@.max ==> final(self)@.active <= final(self)@.max,
    {
        let found = Self::find_index_of(&self.downloads, id);
        match found {
            None => None,
            Some(i) => {
                let ghost pre = self@;
                proof {
                    assert(forall|j: int| 0 <= j < i as int ==> (#[trigger] pre.items[j]).id != id);
                    assert(pre.items[i as int].id == id);
                    lemma_sorted_id_unique(pre.items, i as int, id);
                }
                let item = self.downloads.remove(i);
                proof {
                    assert(self@.items =~= pre.items.remove(i as int));
                    lemma_downloading_count_remove(pre.items, i as int);
                }
                if item.status.is_downloading() {
                    self.active_downloads = self.active_downloads - 1;
                    self.try_start_next_download();
                }
                Some(item)
            },
        }
    }

    /// Remove every successful item; failures stay visible, and pending or
    /// downloading items are untouched.
    pub fn clear_completed(&mut self)
        requires
            old(self).inv(),
        ensures
            final(self).inv(),
            final(self)@ == (QueueModel { items: without_success(old(self)@.items), ..old(self)@ }),
    {
        let ghost pre = self@;
        let n = self.downloads.len();
        let mut kept: Vec<DownloadItem> = Vec::new();
        let mut i: usize = 0;
        while i < n
            invariant
                i <= n,
                n == self@.items.len(),
                self.inv(),
                self@ == pre,
                kept@.map_values(|d: DownloadItem| d@) =~= without_success(
                    pre.items.subrange(0, i as int),
                ),
            decreases n - i,
        {
            proof {
                reveal(Seq::filter);
                let p1 = pre.items.subrange(0, i as int + 1);
                assert(p1.drop_last() =~= pre.items.subrange(0, i as int));
                assert(p1.last() == pre.items[i as int]);
            }
            if !self.downloads[i].status.is_success() {
                let copy = self.downloads[i].duplicate();
                kept.push(copy);
            }
            i = i + 1;
        }
        proof {
            assert(pre.items.subrange(0, n as int) =~= pre.items);
            lemma_without_success_props(pre.items);
        }
        self.downloads = kept;
    }

    /// Whether another submission can still be given an unused id and a fresh
    /// creation stamp; a machine limit that callers test before submitting.
    pub fn ids_not_exhausted(&self) -> (r: bool)
        ensures
            r == can_accept(self@),
    {
        self.next_id < u64::MAX && self.last_stamp < u64::MAX
    }

    /// Submit a URL. A URL failing the allow-list check is rejected with
    /// `InvalidUrl` and no item is created. Otherwise a fresh pending item is
    /// appended, stamped after every existing item, and one admission attempt
    /// runs; the new item's id is returned, and the item sits at the end of
    /// the queue, pending or already downloading.
    pub fn add_download(&mut self, url: String) -> (r: Result<u64, DownloadError>)
        requires
            old(self).inv(),
            can_accept(old(self)@),
        ensures
            final(self).inv(),
            !valid_youtube_url(url@) ==> (r matches Err(e) && e is InvalidUrl) && final(self)@
                == old(self)@,
            valid_youtube_url(url@) ==> (r matches Ok(id) && id == old(self)@.next_id) && ({
                let stamp = final(self)@.last_stamp;
                let appended = old(self)@.items.push(
                    pending_item_model(old(self)@.next_id, url@, stamp),
                );
                let stepped = admit_step(appended, old(self)@.active, old(self)@.max);
                &&& stamp > old(self)@.last_stamp
                &&& final(self)@ == (QueueModel {
                    items: stepped.0,
                    active: stepped.1,
                    next_id: (old(self)@.next_id + 1) as u64,
                    last_stamp: stamp,
                    ..old(self)@
                })
                &&& final(self)@.items.len() == old(self)@.items.len() + 1
                &&& final(self)@.items.last().id == old(self)@.next_id
                &&& final(self)@.items.last().url == url@
                &&& (final(self)@.items.last().status is Pending
                    || final(self)@.items.last().status is Downloading)
            }),
            old(self)@.active <= old(self)@.max ==> final(self)@.active <= final(self)@.max,
    {
        if !is_valid_youtube_url(url.as_str()) {
            return Err(DownloadError::InvalidUrl);
        }
        let ghost pre = self@;
        let ghost gurl = url@;
        let raw = now_unix_millis();
        let now: u64 = if raw <= 0 {
            0
        } else {
            raw as u64
        };
        let stamp = if now > self.last_stamp {
            now
        } else {
            self.last_stamp + 1
        };
        let id = self.next_id;
        self.next_id = self.next_id + 1;
        self.last_stamp = stamp;
        let item = DownloadItem::new(id, url, stamp);
        self.downloads.push(item);
        proof {
            assert(self@.items =~= pre.items.push(pending_item_model(id, gurl, stamp)));
            lemma_downloading_count_push(pre.items, pending_item_model(id, gurl, stamp));
        }
        self.try_start_next_download();
        proof {
            lemma_first_pending_index(pre.items.push(pending_item_model(id, gurl, stamp)));
        }
        Ok(id)
    }

    /// Law: an id occupies at most one position in the queue.
    pub proof fn lemma_id_at_most_once(self, i: int, j: int)
        requires
            self.inv(),
            0 <= i < self@.items.len(),
            0 <= j < self@.items.len(),
            self@.items[i].id == self@.items[j].id,
        ensures
            i == j,
    {
    }

    /// Law: while the active count respects the ceiling, so does the number of
    /// items actually downloading (they are reconciled by the invariant).
    pub proof fn lemma_downloading_bounded(self)
        requires
            self.inv(),
            self@.active <= self@.max,
        ensures
            downloading_count(self@.items) <= self@.max,
    {
    }

    /// Law: admission is first-in-first-out — the item an admission attempt
    /// promotes is the pending item with the least creation stamp.
    pub proof fn lemma_fifo_admission(self)
        requires
            self.inv(),
            has_pending(self@.items),
        ensures
            ({
                let i = first_pending_index(self@.items);
                &&& 0 <= i < self@.items.len()
                &&& self@.items[i].status is Pending
                &&& forall|j: int|
                    0 <= j < self@.items.len() && (#[trigger] self@.items[j]).status is Pending
                        ==> self@.items[i].created_at <= self@.items[j].created_at
            }),
    {
        lemma_first_pending_index(self@.items);
    }
}

/// Law: immediately after a successful submission the returned id is present
/// exactly once — at the end of the queue, the position a snapshot lists
/// first — and that item is pending or downloading. The hypotheses are what
/// `add_download` ensures of a submission it accepted.
pub proof fn lemma_submitted_id_listed_once(m: DownloadManager, id: u64)
    requires
        m.inv(),
        m@.items.len() > 0,
        m@.items.last().id == id,
        m@.items.last().status is Pending || m@.items.last().status is Downloading,
    ensures
        exists|i: int|
            0 <= i < m@.items.len() && (#[trigger] m@.items[i]).id == id && (m@.items[i].status
                is Pending || m@.items[i].status is Downloading),
        forall|i: int, j: int|
            #![trigger m@.items[i].id, m@.items[j].id]
            0 <= i < m@.items.len() && 0 <= j < m@.items.len() && m@.items[i].id == id
                && m@.items[j].id == id ==> i == j,
{
    let last = m@.items.len() - 1;
    assert(m@.items[last].id == id && (m@.items[last].status is Pending || m@.items[last].status
        is Downloading));
}

/// Law: the completed sweep leaves no successful item behind, and a queue
/// without successful items passes through it unchanged.
pub proof fn lemma_clear_completed_policy(s: Seq<ItemModel>)
    ensures
        forall|k: int|
            0 <= k < without_success(s).len() ==> !((#[trigger] without_success(s)[k]).status
                is Success),
        (forall|i: int| 0 <= i < s.len() ==> !((#[trigger] s[i]).status is Success))
            ==> without_success(s) =~= s,
    decreases s.len(),
{
    reveal(Seq::filter);
    if s.len() > 0 {
        lemma_clear_completed_policy(s.drop_last());
        assert(forall|i: int| 0 <= i < s.len() - 1 ==> s.drop_last()[i] == s[i]);
        if forall|i: int| 0 <= i < s.len() ==> !((#[trigger] s[i]).status is Success) {
            assert(without_success(s) =~= s);
        }
    } else {
        assert(without_success(s) =~= s);
    }
}

impl Default for DownloadManager {
    fn default() -> (r: Self)
        ensures
            r.inv(),
            r@.items.len() == 0,
            r@.active == 0,
            r@.max == 3,
            r@.next_id == 0,
            r@.last_stamp == 0,
    {
        Self::new()
    }
}

/// Law: one admission attempt never pushes the active count above the ceiling.
pub proof fn lemma_admit_step_bounded(items: Seq<ItemModel>, active: nat, max: nat)
    requires
        active <= max,
    ensures
        admit_step(items, active, max).1 <= max,
{
}

/// An unfinished download's reported outcome: the path of the produced file,
/// or the reason it failed.
pub ghost enum CompletionModel {
    Succeeded(Seq<char>),
    Failed(Seq<char>),
}

pub open spec fn default_failure_reason() -> Seq<char> {
    "download failed"@
}

/// The item as a completion leaves it.
pub open spec fn completed_item(d: ItemModel, outcome: CompletionModel) -> ItemModel {
    match outcome {
        CompletionModel::Succeeded(path) => ItemModel {
            status: StatusModel::Success,
            file_path: Some(path),
            progress: PROGRESS_FULL,
            ..d
        },
        CompletionModel::Failed(reason) => ItemModel {
            status: StatusModel::Failed(
                if reason.len() == 0 {
                    default_failure_reason()
                } else {
                    reason
                },
            ),
            ..d
        },
    }
}

/// How a reported completion changes the queue: a downloading item with the
/// reported id takes the outcome, the freed slot is re-offered to the oldest
/// pending item, and anything else leaves the queue as it was.
pub open spec fn complete_spec(
    pre: QueueModel,
    post: QueueModel,
    id: u64,
    outcome: CompletionModel,
) -> bool {
    &&& (!has_id(pre.items, id) ==> post == pre)
    &&& (forall|i: int|
        #![trigger pre.items[i]]
        0 <= i < pre.items.len() && pre.items[i].id == id ==> (if pre.items[i].status
            is Downloading {
            let stepped = admit_step(
                pre.items.update(i, completed_item(pre.items[i], outcome)),
                (pre.active - 1) as nat,
                pre.max,
            );
            post == (QueueModel { items: stepped.0, active: stepped.1, ..pre })
        } else {
            post == pre
        }))
}

/// The pending item a submission creates.
pub open spec fn pending_item_model(id: u64, url: Seq<char>, created_at: u64) -> ItemModel {
    ItemModel {
        id,
        url,
        title: None,
        status: StatusModel::Pending,
        created_at,
        progress: 0,
        file_path: None,
    }
}

/// Another submission can still be given an unused id and a fresh stamp.
pub open spec fn can_accept(m: QueueModel) -> bool {
    m.next_id < u64::MAX && m.last_stamp < u64::MAX
}

pub open spec fn has_id(s: Seq<ItemModel>, id: u64) -> bool {
    exists|i: int| 0 <= i < s.len() && s[i].id == id
}

/// Progress writes are clamped into `[0, PROGRESS_FULL]`.
pub open spec fn clamp_progress(p: int) -> int {
    if p < 0 {
        0
    } else if p > PROGRESS_FULL {
        PROGRESS_FULL as int
    } else {
        p
    }
}

pub open spec fn non_success(d: ItemModel) -> bool {
    !(d.status is Success)
}

/// The queue after a sweep of the successful items.
pub open spec fn without_success(s: Seq<ItemModel>) -> Seq<ItemModel> {
    s.filter(|d: ItemModel| non_success(d))
}

proof fn lemma_without_success_props(s: Seq<ItemModel>)
    ensures
        downloading_count(without_success(s)) == downloading_count(s),
        without_success(s).len() <= s.len(),
        forall|k: int| 0 <= k < without_success(s).len() ==> exists|i: int|
            0 <= i < s.len() && s[i] == #[trigger] without_success(s)[k],
        (forall|i: int, j: int|
            #![trigger s[i].id, s[j].id]
            0 <= i < j < s.len() ==> s[i].id < s[j].id) ==> (forall|k: int, l: int|
            #![trigger without_success(s)[k].id, without_success(s)[l].id]
            0 <= k < l < without_success(s).len() ==> without_success(s)[k].id < without_success(
                s,
            )[l].id),
        (forall|i: int, j: int|
            #![trigger s[i].created_at, s[j].created_at]
            0 <= i < j < s.len() ==> s[i].created_at < s[j].created_at) ==> (forall|k: int, l: int|
            #![trigger without_success(s)[k].created_at, without_success(s)[l].created_at]
            0 <= k < l < without_success(s).len() ==> without_success(s)[k].created_at
                < without_success(s)[l].created_at),
    decreases s.len(),
{
    reveal(Seq::filter);
    if s.len() == 0 {
        assert(without_success(s) =~= Seq::<ItemModel>::empty());
    } else {
        let front = s.drop_last();
        lemma_without_success_props(front);
        assert(forall|i: int| 0 <= i < front.len() ==> front[i] == s[i]);
        if non_success(s.last()) {
            assert(without_success(s) == without_success(front).push(s.last()));
            lemma_downloading_count_push(without_success(front), s.last());
        } else {
            assert(without_success(s) == without_success(front));
            assert(downloading_count(s) == downloading_count(front));
        }
    }
}

proof fn lemma_sorted_id_unique(s: Seq<ItemModel>, i: int, id: u64)
    requires
        forall|a: int, b: int| #![trigger s[a].id, s[b].id] 0 <= a < b < s.len() ==> s[a].id < s[b].id,
        0 <= i < s.len(),
        s[i].id == id,
        forall|j: int| 0 <= j < i ==> (#[trigger] s[j]).id != id,
    ensures
        forall|j: int| 0 <= j < s.len() && (#[trigger] s[j]).id == id ==> j == i,
{
    assert forall|j: int| 0 <= j < s.len() && (#[trigger] s[j]).id == id implies j == i by {
        if j > i {
            assert(s[i].id < s[j].id);
        }
    }
}

} // verus!
