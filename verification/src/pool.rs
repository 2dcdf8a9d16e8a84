//! The download pool: the state that clients are told, and the scheduler
//! that hands queued jobs to idle workers.

use crate::cache::{Cache, CacheResult, Lookup};
use crate::config::Config;
use crate::digest::{Digest, DigestView};
use crate::downloader::DownloadStatus;
use crate::job::{DataView, JobData, JobKey, KeyView};
use crate::job_queue::{Job, JobQueue};
use crate::paths::{join, join_path};
use crate::queue_model::{lemma_complete_wf, lemma_pop_wf, lemma_reset_wf, QueueModel};
use crate::text::same_text;
use crate::urls::{as_text, url_joined, url_parsed, url_text};
use vstd::prelude::*;

verus! {

/// How far the download of a file is, as clients are told.
#[derive(Debug)]
pub enum DownloadState {
    NotStarted,
    InWork { downloaded: usize, size: usize },
    Finished { digest: Digest },
}

/// The mathematical value of a download state.
pub enum StateView {
    NotStarted,
    InWork { downloaded: nat, size: nat },
    Finished { digest: DigestView },
}

impl View for DownloadState {
    type V = StateView;

    open spec fn view(&self) -> StateView {
        match self {
            DownloadState::NotStarted => StateView::NotStarted,
            DownloadState::InWork { downloaded, size } => StateView::InWork {
                downloaded: *downloaded as nat,
                size: *size as nat,
            },
            DownloadState::Finished { digest } => StateView::Finished { digest: digest@ },
        }
    }
}

/// `downloaded` of `size` in hundredths, rounded down, and no more than the
/// result type holds.
pub open spec fn hundredths(downloaded: nat, size: nat) -> int {
    if 100 * downloaded / size > i32::MAX {
        i32::MAX as int
    } else {
        (100 * downloaded / size) as int
    }
}

impl StateView {
    /// The part of the file that is on disk, in hundredths: of a file without
    /// length, all when the download is finished and nothing before.
    pub open spec fn percentage(self) -> int {
        match self {
            StateView::NotStarted => 0,
            StateView::InWork { downloaded, size } => if size > 0 {
                hundredths(downloaded, size)
            } else {
                0
            },
            StateView::Finished { digest } => if digest.size > 0 {
                hundredths(digest.downloaded as nat, digest.size as nat)
            } else {
                100
            },
        }
    }
}

/// A download that counts no more than its size is at a hundred at most.
pub proof fn lemma_percentage_bounds(state: StateView)
    requires
        state matches StateView::InWork { downloaded, size } ==> downloaded <= size,
        state matches StateView::Finished { digest } ==> digest.downloaded <= digest.size,
    ensures
        0 <= state.percentage() <= 100,
        state matches StateView::Finished { digest } && digest.complete() ==> state.percentage()
            == 100,
{
    match state {
        StateView::NotStarted => {},
        StateView::InWork { downloaded, size } => {
            if size > 0 {
                lemma_hundredths(downloaded, size);
            }
        },
        StateView::Finished { digest } => {
            if digest.size > 0 {
                lemma_hundredths(digest.downloaded as nat, digest.size as nat);
            }
        },
    }
}

proof fn lemma_hundredths(downloaded: nat, size: nat)
    requires
        size > 0,
        downloaded <= size,
    ensures
        0 <= 100 * downloaded / size <= 100,
        downloaded == size ==> 100 * downloaded / size == 100,
{
    assert(0 <= 100 * downloaded / size <= 100) by (nonlinear_arith)
        requires
            size > 0,
            downloaded <= size,
    ;
    assert(downloaded == size ==> 100 * downloaded / size == 100) by (nonlinear_arith)
        requires
            size > 0,
    ;
}

fn hundredths_of(downloaded: u64, size: u64) -> (percent: i32)
    requires
        size > 0,
    ensures
        percent == hundredths(downloaded as nat, size as nat),
{
    let scaled: u128 = 100u128 * (downloaded as u128);
    let part: u128 = scaled / (size as u128);
    if part > 2147483647u128 {
        2147483647i32
    } else {
        part as i32
    }
}

impl DownloadState {
    /// The part of the file that is on disk, in hundredths.
    pub fn percentage(&self) -> (percent: i32)
        ensures
            percent == self@.percentage(),
    {
        match self {
            DownloadState::NotStarted => 0,
            DownloadState::InWork { downloaded, size } => {
                if *size > 0 {
                    hundredths_of(*downloaded as u64, *size as u64)
                } else {
                    0
                }
            },
            DownloadState::Finished { digest } => {
                if digest.size() > 0 {
                    hundredths_of(digest.downloaded(), digest.size())
                } else {
                    100
                }
            },
        }
    }
}

/// The order to a worker to start a job.
#[derive(Debug)]
pub struct StartOrder {
    pub slot: usize,
    pub key: JobKey,
    pub data: JobData,
}

/// The mathematical value of a start order.
pub struct StartView {
    pub slot: int,
    pub key: KeyView,
    pub data: DataView,
}

impl View for StartOrder {
    type V = StartView;

    open spec fn view(&self) -> StartView {
        StartView { slot: self.slot as int, key: self.key@, data: self.data@ }
    }
}

/// The values of a sequence of start orders.
pub open spec fn orders_view(orders: Seq<StartOrder>) -> Seq<StartView> {
    Seq::new(orders.len(), |i: int| orders[i]@)
}

/// The value of a worker's status.
pub open spec fn status_view(status: DownloadStatus<JobKey>) -> DownloadStatus<KeyView> {
    match status {
        DownloadStatus::Idle => DownloadStatus::Idle,
        DownloadStatus::Downloading { key, downloaded, size } => DownloadStatus::Downloading {
            key: key@,
            downloaded,
            size,
        },
    }
}

/// The values of the statuses of all workers.
pub open spec fn statuses_view(statuses: Seq<DownloadStatus<JobKey>>) -> Seq<
    DownloadStatus<KeyView>,
> {
    Seq::new(statuses.len(), |i: int| status_view(statuses[i]))
}

/// What the scheduler does for one slot: nothing while its worker is busy;
/// for an idle worker, the job that the slot still holds is done, and the
/// oldest waiting job, if any, moves into the slot.
pub open spec fn settle(m: QueueModel, status: DownloadStatus<KeyView>, slot: int) -> QueueModel {
    if status is Idle {
        m.complete(slot).pop(slot)
    } else {
        m
    }
}

/// The queue after the scheduler went through the slots below `n`.
pub open spec fn schedule(m: QueueModel, statuses: Seq<DownloadStatus<KeyView>>, n: int) -> QueueModel
    decreases n,
{
    if n <= 0 {
        m
    } else {
        settle(schedule(m, statuses, n - 1), statuses[n - 1], n - 1)
    }
}

/// The start orders that the scheduler gives while it goes through the slots
/// below `n`, in the order of the slots.
pub open spec fn started(m: QueueModel, statuses: Seq<DownloadStatus<KeyView>>, n: int) -> Seq<
    StartView,
>
    decreases n,
{
    if n <= 0 {
        Seq::empty()
    } else {
        let before = schedule(m, statuses, n - 1);
        let orders = started(m, statuses, n - 1);
        if statuses[n - 1] is Idle {
            match before.complete(n - 1).pop_result(n - 1) {
                Some((key, data)) => orders.push(StartView { slot: n - 1, key, data }),
                None => orders,
            }
        } else {
            orders
        }
    }
}

/// The scheduler keeps the queue well formed.
pub proof fn lemma_schedule_wf(m: QueueModel, statuses: Seq<DownloadStatus<KeyView>>, n: int)
    requires
        m.wf(),
    ensures
        schedule(m, statuses, n).wf(),
        schedule(m, statuses, n).slots.len() == m.slots.len(),
    decreases n,
{
    if n > 0 {
        lemma_schedule_wf(m, statuses, n - 1);
        let before = schedule(m, statuses, n - 1);
        lemma_complete_wf(before, n - 1);
        lemma_pop_wf(before.complete(n - 1), n - 1);
    }
}

/// Why a pool could not be made.
#[derive(Clone, Copy, Debug, PartialEq, Eq, Structural)]
pub enum PoolError {
    /// The base URL of the entry at this place is no absolute URL.
    BaseUrl(usize),
}

/// The base URL of one entry.
struct BaseUrl {
    name: String,
    url: url::Url,
}

/// The queue after the jobs of the slots below `n` that are marked in
/// `failed` were reset, in the order of the slots.
pub open spec fn reset_marked(m: QueueModel, failed: Seq<bool>, n: int) -> QueueModel
    decreases n,
{
    if n <= 0 {
        m
    } else {
        let before = reset_marked(m, failed, n - 1);
        if failed[n - 1] {
            before.reset(n - 1)
        } else {
            before
        }
    }
}

/// Resetting the marked slots keeps the queue well formed and leaves the
/// number of slots as it is.
pub proof fn lemma_reset_marked_wf(m: QueueModel, failed: Seq<bool>, n: int)
    requires
        m.wf(),
    ensures
        reset_marked(m, failed, n).wf(),
        reset_marked(m, failed, n).slots.len() == m.slots.len(),
    decreases n,
{
    if n > 0 {
        lemma_reset_marked_wf(m, failed, n - 1);
        lemma_reset_wf(reset_marked(m, failed, n - 1), n - 1);
    }
}

/// The state of a download pool: its queue, what its workers last reported,
/// and the base URL of each entry.
pub struct DownloadPool {
    queue: JobQueue,
    statuses: Vec<DownloadStatus<JobKey>>,
    base_urls: Vec<BaseUrl>,
}

/// The mathematical value of an entry's base URL: the entry's name and the
/// URL, written out.
pub struct BaseView {
    pub name: Seq<char>,
    pub url: Seq<char>,
}

/// The mathematical value of a download pool.
pub struct PoolView {
    pub queue: QueueModel,
    pub statuses: Seq<DownloadStatus<KeyView>>,
    /// The mapping from entry names to base URLs, in the order of the
    /// entries; of two with one name the first counts.
    pub base_urls: Seq<BaseView>,
}

/// The base URL of every entry of `config` is an absolute URL.
pub open spec fn base_urls_parse(config: &Config) -> bool {
    forall|i: int|
        0 <= i < config.entries@.len() ==> url_parsed(
            (#[trigger] config.entries@[i]).entry.base_url@,
        ) is Some
}

/// The entry at `at` is the first whose base URL is no absolute URL.
pub open spec fn first_bad_base_url(config: &Config, at: int) -> bool {
    &&& 0 <= at < config.entries@.len()
    &&& url_parsed(config.entries@[at].entry.base_url@) is None
    &&& forall|i: int|
        0 <= i < at ==> url_parsed((#[trigger] config.entries@[i]).entry.base_url@) is Some
}

/// The mapping from entry names to parsed base URLs that `config` gives: one
/// for each entry, in order, and no other.
pub open spec fn parsed_base_urls(config: &Config) -> Seq<BaseView> {
    Seq::new(
        config.entries@.len(),
        |i: int|
            BaseView {
                name: config.entries@[i].name@,
                url: url_parsed(config.entries@[i].entry.base_url@)->0,
            },
    )
}

/// The base URL at `i` is the first under `name`.
pub open spec fn is_base_at(bases: Seq<BaseView>, name: Seq<char>, i: int) -> bool {
    &&& 0 <= i < bases.len()
    &&& bases[i].name == name
    &&& forall|j: int| 0 <= j < i ==> (#[trigger] bases[j]).name != name
}

/// The base URL that a mapping holds for `name`, if it holds one.
pub open spec fn base_url_of(bases: Seq<BaseView>, name: Seq<char>) -> Option<Seq<char>> {
    if exists|i: int| is_base_at(bases, name, i) {
        Some(bases[choose|i: int| is_base_at(bases, name, i)].url)
    } else {
        None
    }
}

/// The first base URL under a name is the one that `base_url_of` gives.
pub proof fn lemma_base_url_of(bases: Seq<BaseView>, name: Seq<char>, i: int)
    requires
        is_base_at(bases, name, i),
    ensures
        base_url_of(bases, name) == Some(bases[i].url),
{
    let k = choose|k: int| is_base_at(bases, name, k);
    if k < i {
        assert(bases[k].name != name);
    } else if i < k {
        assert(bases[i].name != name);
    }
}

/// A pool made from a configuration holds, for every entry, the entry's base
/// URL as parsed, under the entry's name.
pub proof fn lemma_mapping_holds_every_entry(config: &Config, i: int)
    requires
        base_urls_parse(config),
        0 <= i < config.entries@.len(),
        forall|j: int| 0 <= j < i ==> (#[trigger] config.entries@[j]).name@ != config.entries@[i].name@,
    ensures
        url_parsed(config.entries@[i].entry.base_url@) == base_url_of(
            parsed_base_urls(config),
            config.entries@[i].name@,
        ),
{
    let bases = parsed_base_urls(config);
    assert(is_base_at(bases, config.entries@[i].name@, i)) by {
        assert forall|j: int| 0 <= j < i implies (#[trigger] bases[j]).name
            != config.entries@[i].name@ by {
            assert(config.entries@[j].name@ != config.entries@[i].name@);
        }
    }
    lemma_base_url_of(bases, config.entries@[i].name@, i);
    assert(url_parsed(config.entries@[i].entry.base_url@) is Some);
}

/// A pool made from a configuration holds no base URL under a name that no
/// entry has.
pub proof fn lemma_mapping_holds_no_other(config: &Config, name: Seq<char>)
    requires
        !config.has_entry(name),
    ensures
        base_url_of(parsed_base_urls(config), name) is None,
{
    let bases = parsed_base_urls(config);
    if exists|i: int| is_base_at(bases, name, i) {
        let i = choose|i: int| is_base_at(bases, name, i);
        assert(config.entries@[i].name@ == name);
    }
}

impl PoolView {
    /// The base URL of the entry `name`, if the pool knows the entry.
    pub open spec fn base_url(self, name: Seq<char>) -> Option<Seq<char>> {
        base_url_of(self.base_urls, name)
    }

    /// The URL from which `filename` of the entry `name` is fetched: the file
    /// name joined to the entry's base URL; none where the entry is unknown
    /// or the two give no URL.
    pub open spec fn source(self, name: Seq<char>, filename: Seq<char>) -> Option<Seq<char>> {
        match self.base_url(name) {
            Some(base) => url_joined(base, filename),
            None => None,
        }
    }

    /// The state of the download of `key`, given what the cache knows of the
    /// file: finished where the cache holds it; in work, with the progress
    /// last reported, where a worker reported on it; else not started.
    pub open spec fn state(self, key: KeyView, cached: Lookup) -> StateView {
        match cached {
            Lookup::Cached(digest) => StateView::Finished { digest },
            _ => if self.queue.jobs.contains_key(key) && self.queue.jobs[key] is InWork {
                match self.statuses[self.queue.jobs[key]->slot as int] {
                    DownloadStatus::Downloading { key: reported, downloaded, size } => if reported
                        == key {
                        StateView::InWork { downloaded: downloaded as nat, size: size as nat }
                    } else {
                        StateView::NotStarted
                    },
                    DownloadStatus::Idle => StateView::NotStarted,
                }
            } else {
                StateView::NotStarted
            },
        }
    }
}

impl View for DownloadPool {
    type V = PoolView;

    closed spec fn view(&self) -> PoolView {
        PoolView {
            queue: self.queue@,
            statuses: statuses_view(self.statuses@),
            base_urls: Seq::new(
                self.base_urls@.len(),
                |i: int|
                    BaseView {
                        name: self.base_urls@[i].name@,
                        url: url_text(self.base_urls@[i].url),
                    },
            ),
        }
    }
}

/// The value of an optional download state.
pub open spec fn state_view(state: Option<DownloadState>) -> Option<StateView> {
    match state {
        Some(s) => Some(s@),
        None => None,
    }
}

impl DownloadPool {
    /// The queue is well formed and there is one status for each slot.
    pub closed spec fn wf(&self) -> bool {
        &&& self.queue.wf()
        &&& self.statuses@.len() == self.queue@.slots.len()
    }

    /// The queue of a well-formed pool is well formed, and there is one
    /// status for each slot.
    pub proof fn lemma_wf(&self)
        requires
            self.wf(),
        ensures
            self@.queue.wf(),
            self@.statuses.len() == self@.queue.slots.len(),
    {
    }

    /// A pool for `config`: as many slots as the configuration allows
    /// downloads at once, all idle, its policy for failed downloads, and the
    /// mapping from each entry's name to its base URL. It fails where the
    /// base URL of an entry is no absolute URL, and names the first such.
    pub fn new(config: &Config) -> (made: Result<DownloadPool, PoolError>)
        requires
            config.cache.max_downloads >= 1,
        ensures
            match made {
                Ok(pool) => {
                    &&& base_urls_parse(config)
                    &&& pool.wf()
                    &&& pool@.queue == QueueModel::empty(
                        config.cache.max_downloads as nat,
                        config.cache.on_failure,
                    )
                    &&& pool@.statuses == Seq::new(
                        config.cache.max_downloads as nat,
                        |i: int| DownloadStatus::<KeyView>::Idle,
                    )
                    &&& pool@.base_urls == parsed_base_urls(config)
                },
                Err(PoolError::BaseUrl(at)) => first_bad_base_url(config, at as int),
            },
    {
        let mut base_urls: Vec<BaseUrl> = Vec::new();
        let mut at: usize = 0;
        while at < config.entries.len()
            invariant
                at <= config.entries@.len(),
                base_urls@.len() == at,
                forall|j: int|
                    0 <= j < at ==> {
                        &&& (#[trigger] base_urls@[j]).name@ == config.entries@[j].name@
                        &&& url_parsed(config.entries@[j].entry.base_url@) == Some(
                            url_text(base_urls@[j].url),
                        )
                    },
            decreases config.entries@.len() - at,
        {
            match crate::urls::parse(config.entries[at].entry.base_url.as_str()) {
                Err(_) => {
                    assert forall|i: int| 0 <= i < at implies url_parsed(
                        (#[trigger] config.entries@[i]).entry.base_url@,
                    ) is Some by {
                        assert(base_urls@[i].name@ == config.entries@[i].name@);
                    }
                    return Err(PoolError::BaseUrl(at));
                },
                Ok(url) => {
                    base_urls.push(BaseUrl { name: config.entries[at].name.clone(), url });
                },
            }
            at = at + 1;
        }
        let queue = JobQueue::with_policy(config.cache.max_downloads, config.cache.on_failure);
        let mut statuses: Vec<DownloadStatus<JobKey>> = Vec::new();
        let mut i: usize = 0;
        while i < config.cache.max_downloads
            invariant
                i <= config.cache.max_downloads,
                statuses@.len() == i,
                forall|j: int| 0 <= j < i ==> statuses@[j] is Idle,
            decreases config.cache.max_downloads - i,
        {
            statuses.push(DownloadStatus::Idle);
            i = i + 1;
        }
        let pool = DownloadPool { queue, statuses, base_urls };
        proof {
            assert(pool@.statuses =~= Seq::new(
                config.cache.max_downloads as nat,
                |i: int| DownloadStatus::<KeyView>::Idle,
            ));
            assert forall|i: int| 0 <= i < config.entries@.len() implies url_parsed(
                (#[trigger] config.entries@[i]).entry.base_url@,
            ) is Some by {
                assert(pool.base_urls@[i].name@ == config.entries@[i].name@);
            }
            assert forall|i: int| 0 <= i < config.entries@.len() implies pool@.base_urls[i]
                == parsed_base_urls(config)[i] by {
                assert(pool.base_urls@[i].name@ == config.entries@[i].name@);
            }
            assert(pool@.base_urls =~= parsed_base_urls(config));
        }
        Ok(pool)
    }

    /// The place of the base URL of the entry `name`.
    fn find_base(&self, name: &str) -> (at: Option<usize>)
        ensures
            match at {
                Some(i) => is_base_at(self@.base_urls, name@, i as int) && i < self.base_urls@.len(),
                None => self@.base_url(name@) is None,
            },
    {
        let mut i: usize = 0;
        while i < self.base_urls.len()
            invariant
                i <= self.base_urls@.len(),
                forall|j: int| 0 <= j < i ==> (#[trigger] self@.base_urls[j]).name != name@,
            decreases self.base_urls@.len() - i,
        {
            if same_text(self.base_urls[i].name.as_str(), name) {
                return Some(i);
            }
            i = i + 1;
        }
        proof {
            if exists|k: int| is_base_at(self@.base_urls, name@, k) {
                let k = choose|k: int| is_base_at(self@.base_urls, name@, k);
                assert(self@.base_urls[k].name != name@);
            }
        }
        None
    }

    /// The base URL of the entry `name`, written out, if the pool knows the
    /// entry.
    pub fn base_url(&self, name: &str) -> (url: Option<String>)
        ensures
            match url {
                Some(text) => self@.base_url(name@) == Some(text@),
                None => self@.base_url(name@) is None,
            },
    {
        match self.find_base(name) {
            None => None,
            Some(i) => {
                proof {
                    lemma_base_url_of(self@.base_urls, name@, i as int);
                }
                Some(as_text(&self.base_urls[i].url))
            },
        }
    }

    /// The number of worker slots.
    pub fn slots(&self) -> (n: usize)
        requires
            self.wf(),
        ensures
            n == self@.queue.slots.len(),
            n == self@.statuses.len(),
    {
        self.statuses.len()
    }

    /// True when no job waits for a worker.
    pub fn is_empty(&self) -> (empty: bool)
        ensures
            empty == (self@.queue.queue.len() == 0),
    {
        self.queue.is_empty()
    }

    /// The state of the download of `key`, given what the cache knows of the
    /// file.
    pub fn state(&self, key: &JobKey, cached: CacheResult) -> (state: DownloadState)
        requires
            self.wf(),
        ensures
            state@ == self@.state(key@, cached@),
    {
        match cached {
            CacheResult::Cached(digest) => DownloadState::Finished { digest },
            _ => match self.queue.job(key) {
                Some(Job::InWork { slot, .. }) => {
                    match &self.statuses[slot] {
                        DownloadStatus::Downloading { key: reported, downloaded, size } => {
                            if *reported == *key {
                                DownloadState::InWork { downloaded: *downloaded, size: *size }
                            } else {
                                DownloadState::NotStarted
                            }
                        },
                        DownloadStatus::Idle => DownloadState::NotStarted,
                    }
                },
                _ => DownloadState::NotStarted,
            },
        }
    }

    /// Queues the download of `filename` for the entry of `cache`, from the
    /// file's URL below the entry's base URL into the cache's directory,
    /// unless a job for it is known already, and reports the state of the
    /// download. Where the pool does not know the entry, or the file name
    /// and the base URL give no URL, nothing is queued and nothing reported.
    pub fn enqueue(&mut self, cache: &Cache, filename: &str) -> (state: Option<DownloadState>)
        requires
            old(self).wf(),
            cache.wf(),
        ensures
            final(self).wf(),
            match old(self)@.source(cache@.name, filename@) {
                None => state is None && final(self)@ == old(self)@,
                Some(url) => {
                    &&& final(self)@.queue == old(self)@.queue.push(
                        (cache@.name, filename@),
                        (url, join(cache@.path, filename@)),
                    )
                    &&& final(self)@.statuses == old(self)@.statuses
                    &&& final(self)@.base_urls == old(self)@.base_urls
                    &&& state_view(state) == Some(
                        final(self)@.state((cache@.name, filename@), cache@.get(filename@)),
                    )
                },
            },
    {
        let at = match self.find_base(cache.name()) {
            None => {
                return None;
            },
            Some(at) => at,
        };
        proof {
            lemma_base_url_of(self@.base_urls, cache@.name, at as int);
        }
        let url = match crate::urls::join(&self.base_urls[at].url, filename) {
            Err(_) => {
                return None;
            },
            Ok(url) => as_text(&url),
        };
        let key = JobKey::new(cache.name(), filename);
        let path = join_path(cache.get_path(), filename);
        let data = JobData { url, path };
        self.queue.push(key.clone(), data);
        Some(self.state(&key, cache.get(filename)))
    }

    /// Takes note that the download in `slot` failed: by the pool's policy
    /// the job returns to the end of the queue or is forgotten.
    pub fn fail(&mut self, slot: usize)
        requires
            old(self).wf(),
        ensures
            final(self).wf(),
            final(self)@.queue == old(self)@.queue.reset(slot as int),
            final(self)@.statuses == old(self)@.statuses,
            final(self)@.base_urls == old(self)@.base_urls,
    {
        self.queue.reset(slot);
    }

    /// Takes note of every download that failed since the last round:
    /// `failed` says so slot by slot, and the job of each such slot is reset
    /// as `fail` does, in the order of the slots. A worker marks its slot
    /// before it reports idle again, so this comes before `update` in each
    /// round, lest a failed job be taken for done.
    pub fn fail_marked(&mut self, failed: &Vec<bool>)
        requires
            old(self).wf(),
        ensures
            final(self).wf(),
            final(self)@.queue == reset_marked(old(self)@.queue, failed@, failed@.len() as int),
            final(self)@.statuses == old(self)@.statuses,
            final(self)@.base_urls == old(self)@.base_urls,
    {
        let ghost before = self.queue@;
        let mut slot: usize = 0;
        while slot < failed.len()
            invariant
                slot <= failed@.len(),
                self.wf(),
                before.wf(),
                self@.queue == reset_marked(before, failed@, slot as int),
                self@.statuses == old(self)@.statuses,
                self@.base_urls == old(self)@.base_urls,
            decreases failed@.len() - slot,
        {
            if failed[slot] {
                self.queue.reset(slot);
            }
            proof {
                lemma_reset_marked_wf(before, failed@, slot as int);
            }
            slot = slot + 1;
        }
    }

    /// One round of the scheduler, given what each worker reports: for every
    /// idle worker, in the order of the slots, the job that its slot still
    /// holds is done and the oldest waiting job moves in. Returns the orders
    /// to start those jobs and keeps the reports.
    pub fn update(&mut self, statuses: Vec<DownloadStatus<JobKey>>) -> (orders: Vec<StartOrder>)
        requires
            old(self).wf(),
            statuses@.len() == old(self)@.statuses.len(),
        ensures
            final(self).wf(),
            final(self)@.statuses == statuses_view(statuses@),
            final(self)@.base_urls == old(self)@.base_urls,
            final(self)@.queue == schedule(
                old(self)@.queue,
                statuses_view(statuses@),
                statuses@.len() as int,
            ),
            orders_view(orders@) == started(
                old(self)@.queue,
                statuses_view(statuses@),
                statuses@.len() as int,
            ),
    {
        let ghost before = self.queue@;
        let ghost reports = statuses_view(statuses@);
        let mut orders: Vec<StartOrder> = Vec::new();
        let mut slot: usize = 0;
        assert(orders_view(orders@) =~= started(before, reports, 0));
        while slot < statuses.len()
            invariant
                slot <= statuses@.len(),
                reports == statuses_view(statuses@),
                before.wf(),
                self.queue.wf(),
                self.queue@.slots.len() == statuses@.len(),
                self.queue@ == schedule(before, reports, slot as int),
                self@.base_urls == old(self)@.base_urls,
                orders_view(orders@) == started(before, reports, slot as int),
            decreases statuses@.len() - slot,
        {
            let ghost step_before = self.queue@;
            let ghost orders_before = orders_view(orders@);
            let idle = match &statuses[slot] {
                DownloadStatus::Idle => true,
                _ => false,
            };
            assert(idle == (reports[slot as int] is Idle));
            if idle {
                self.queue.complete(slot);
                match self.queue.pop(slot) {
                    Some((key, data)) => {
                        orders.push(StartOrder { slot, key, data });
                        assert(orders_view(orders@) =~= orders_before.push(
                            StartView { slot: slot as int, key: key@, data: data@ },
                        ));
                    },
                    None => {},
                }
            }
            proof {
                lemma_schedule_wf(before, reports, slot as int + 1);
            }
            slot = slot + 1;
        }
        self.statuses = statuses;
        orders
    }
}

} // verus!
