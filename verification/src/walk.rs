//! What a whole run asks of the camera.
//!
//! A run is the orchestrator stepped from its initial state, each request
//! answered by a camera whose behaviour is fixed beforehand: what it lists,
//! and for each file of the walk whether its fetch and its delete succeed.
//! The laws below say which requests such a run makes, and in which order.

use vstd::prelude::*;

use crate::catalog::lemma_files_of_len;
use crate::catalog::CatalogView;
use crate::catalog::RemoteFileView;
use crate::orchestrator::ActionView;
use crate::orchestrator::EventView;
use crate::orchestrator::Phase;
use crate::orchestrator::State;

verus! {

/// A camera as one run meets it.
pub struct Camera {
    /// The listing it gives, or `None` where the listing fails.
    pub listing: Option<CatalogView>,
    /// Whether the fetch of the file at a position of the walk succeeds.
    pub fetch_ok: spec_fn(int) -> bool,
    /// Whether the delete of the file at a position of the walk succeeds.
    pub delete_ok: spec_fn(int) -> bool,
}

impl Camera {
    /// The files this camera lists, in walk order; none where the listing fails.
    pub open spec fn files(self) -> Seq<RemoteFileView> {
        match self.listing {
            Some(catalog) => catalog.remote_files(),
            None => Seq::empty(),
        }
    }

    /// The event that answers the request a run in state `s` waits for;
    /// `None` once the run has ended.
    pub open spec fn answer(self, s: State) -> Option<EventView> {
        match s.phase {
            Phase::Idle => Some(EventView::Start),
            Phase::Listing => Some(
                match self.listing {
                    Some(catalog) => EventView::Listed(catalog),
                    None => EventView::ListFailed,
                },
            ),
            Phase::Fetching => Some(
                if (self.fetch_ok)(s.cursor as int) {
                    EventView::Fetched
                } else {
                    EventView::FetchFailed
                },
            ),
            Phase::Deleting => Some(
                if (self.delete_ok)(s.cursor as int) {
                    EventView::Deleted
                } else {
                    EventView::DeleteFailed
                },
            ),
            Phase::Done | Phase::Failed => None,
        }
    }

    /// A bound on the requests a run in state `s` still makes.
    pub open spec fn steps_left(self, s: State) -> nat {
        match s.phase {
            Phase::Idle => 2 * self.files().len() + 3,
            Phase::Listing => 2 * self.files().len() + 2,
            Phase::Fetching => (2 * (s.files.len() - s.cursor)) as nat,
            Phase::Deleting => (2 * (s.files.len() - s.cursor) - 1) as nat,
            Phase::Done | Phase::Failed => 0,
        }
    }

    /// The actions of a run from state `s` on, in the order taken.
    pub open spec fn run_from(self, s: State) -> Seq<ActionView>
        decreases self.steps_left(s),
    {
        if !s.wf() {
            Seq::empty()
        } else {
            match self.answer(s) {
                Some(event) => {
                    let (next, action) = s.step(event);
                    match action {
                        Some(a) => seq![a] + self.run_from(next),
                        None => Seq::empty(),
                    }
                },
                None => Seq::empty(),
            }
        }
    }

    /// The actions of a whole run against this camera.
    pub open spec fn run(self) -> Seq<ActionView> {
        self.run_from(State::initial())
    }
}

/// The requests one file accounts for: its fetch, and its delete where the
/// fetch succeeded.
pub open spec fn calls_for(file: RemoteFileView, fetched: bool) -> Seq<ActionView> {
    if fetched {
        seq![ActionView::Fetch(file), ActionView::Delete(file)]
    } else {
        seq![ActionView::Fetch(file)]
    }
}

/// The requests the first `n` files of a walk account for, file after file.
pub open spec fn calls(files: Seq<RemoteFileView>, fetch_ok: spec_fn(int) -> bool, n: nat) -> Seq<
    ActionView,
>
    decreases n,
{
    if n == 0 {
        Seq::empty()
    } else {
        calls(files, fetch_ok, (n - 1) as nat) + calls_for(files[n - 1], fetch_ok(n - 1))
    }
}

/// How many of the first `n` fetches succeed.
pub open spec fn successes(fetch_ok: spec_fn(int) -> bool, n: nat) -> nat
    decreases n,
{
    if n == 0 {
        0
    } else {
        successes(fetch_ok, (n - 1) as nat) + if fetch_ok(n - 1) {
            1nat
        } else {
            0nat
        }
    }
}

/// How many of `actions` are fetches.
pub open spec fn fetches(actions: Seq<ActionView>) -> nat
    decreases actions.len(),
{
    if actions.len() == 0 {
        0
    } else {
        fetches(actions.drop_last()) + if actions.last() is Fetch {
            1nat
        } else {
            0nat
        }
    }
}

/// How many of `actions` are deletes.
pub open spec fn deletes(actions: Seq<ActionView>) -> nat
    decreases actions.len(),
{
    if actions.len() == 0 {
        0
    } else {
        deletes(actions.drop_last()) + if actions.last() is Delete {
            1nat
        } else {
            0nat
        }
    }
}

/// What a whole run does, written out: it asks for the listing; where that
/// fails it stops, and otherwise it goes through the files and then ends.
pub open spec fn script(camera: Camera) -> Seq<ActionView> {
    match camera.listing {
        Some(catalog) => seq![ActionView::List] + calls(
            catalog.remote_files(),
            camera.fetch_ok,
            catalog.file_count(),
        ) + seq![ActionView::Complete],
        None => seq![ActionView::List, ActionView::Abort],
    }
}

proof fn lemma_run_from_fetching(camera: Camera, s: State)
    requires
        s.wf(),
        s.phase == Phase::Fetching,
    ensures
        calls(s.files, camera.fetch_ok, s.cursor) + seq![ActionView::Fetch(s.current())]
            + camera.run_from(s) == calls(s.files, camera.fetch_ok, s.files.len())
            + seq![ActionView::Complete],
    decreases s.files.len() - s.cursor,
{
    let ok = camera.fetch_ok;
    let before = calls(s.files, ok, s.cursor);
    let fetch = seq![ActionView::Fetch(s.current())];
    let through = calls(s.files, ok, s.cursor + 1);
    let (after, action) = State::visit(s.files, s.cursor + 1);
    let onward = seq![action.unwrap()] + camera.run_from(after);
    if ok(s.cursor as int) {
        let delete = seq![ActionView::Delete(s.current())];
        let deleting = State { phase: Phase::Deleting, ..s };
        assert(camera.run_from(s) == delete + camera.run_from(deleting));
        assert(camera.run_from(deleting) == onward);
        assert(through == before + fetch + delete);
    } else {
        assert(camera.run_from(s) == onward);
        assert(through == before + fetch);
    }
    assert(before + fetch + camera.run_from(s) == through + onward);
    if s.cursor + 1 < s.files.len() {
        lemma_run_from_fetching(camera, after);
        assert(through + onward == through + seq![ActionView::Fetch(after.current())]
            + camera.run_from(after));
    } else {
        assert(camera.run_from(after) == Seq::<ActionView>::empty());
        assert(onward == seq![ActionView::Complete]);
    }
}

/// A run makes exactly the requests of its script, in that order.
pub proof fn law_run_follows_script(camera: Camera)
    ensures
        camera.run() == script(camera),
{
    let idle = State::initial();
    let listing = State { phase: Phase::Listing, ..idle };
    assert(camera.run_from(idle) == seq![ActionView::List] + camera.run_from(listing));
    match camera.listing {
        Some(catalog) => {
            let files = catalog.remote_files();
            lemma_files_of_len(catalog.directories);
            let (first, action) = State::visit(files, 0);
            assert(camera.run_from(listing) == seq![action.unwrap()] + camera.run_from(first));
            if files.len() > 0 {
                lemma_run_from_fetching(camera, first);
                assert(calls(files, camera.fetch_ok, 0) == Seq::<ActionView>::empty());
                assert(camera.run_from(listing) == calls(files, camera.fetch_ok, files.len())
                    + seq![ActionView::Complete]);
            } else {
                assert(camera.run_from(first) == Seq::<ActionView>::empty());
                assert(camera.run_from(listing) == seq![ActionView::Complete]);
            }
            assert(camera.run() == script(camera));
        },
        None => {
            let failed = State { phase: Phase::Failed, ..idle };
            assert(camera.run_from(listing) == seq![ActionView::Abort] + camera.run_from(failed));
            assert(camera.run_from(failed) == Seq::<ActionView>::empty());
            assert(camera.run() == script(camera));
        },
    }
}

/// Counting fetches and deletes goes piece by piece.
pub proof fn lemma_counts_add(a: Seq<ActionView>, b: Seq<ActionView>)
    ensures
        fetches(a + b) == fetches(a) + fetches(b),
        deletes(a + b) == deletes(a) + deletes(b),
    decreases b.len(),
{
    if b.len() == 0 {
        assert(a + b == a);
    } else {
        assert((a + b).drop_last() == a + b.drop_last());
        assert((a + b).last() == b.last());
        lemma_counts_add(a, b.drop_last());
    }
}

proof fn lemma_counts_of_one(action: ActionView)
    ensures
        fetches(seq![action]) == if action is Fetch { 1nat } else { 0nat },
        deletes(seq![action]) == if action is Delete { 1nat } else { 0nat },
{
    reveal_with_fuel(fetches, 2);
    reveal_with_fuel(deletes, 2);
}

proof fn lemma_counts_of_calls_for(file: RemoteFileView, fetched: bool)
    ensures
        fetches(calls_for(file, fetched)) == 1,
        deletes(calls_for(file, fetched)) == if fetched { 1nat } else { 0nat },
{
    let fetch = seq![ActionView::Fetch(file)];
    lemma_counts_of_one(ActionView::Fetch(file));
    if fetched {
        assert(calls_for(file, fetched).drop_last() == fetch);
    }
}

/// The first `n` files account for `n` fetches and for one delete per
/// fetch that succeeded, and for nothing else.
pub proof fn lemma_calls_counts(files: Seq<RemoteFileView>, fetch_ok: spec_fn(int) -> bool, n: nat)
    ensures
        calls(files, fetch_ok, n).len() == n + successes(fetch_ok, n),
        fetches(calls(files, fetch_ok, n)) == n,
        deletes(calls(files, fetch_ok, n)) == successes(fetch_ok, n),
    decreases n,
{
    if n > 0 {
        let before = calls(files, fetch_ok, (n - 1) as nat);
        lemma_calls_counts(files, fetch_ok, (n - 1) as nat);
        lemma_counts_of_calls_for(files[n - 1], fetch_ok(n - 1));
        lemma_counts_add(before, calls_for(files[n - 1], fetch_ok(n - 1)));
    }
}

/// What the first `m` files account for opens what the first `n` account
/// for, whenever `m` is at most `n`.
pub proof fn lemma_calls_extend(
    files: Seq<RemoteFileView>,
    fetch_ok: spec_fn(int) -> bool,
    m: nat,
    n: nat,
)
    requires
        m <= n,
    ensures
        calls(files, fetch_ok, m).len() <= calls(files, fetch_ok, n).len(),
        calls(files, fetch_ok, n).take(calls(files, fetch_ok, m).len() as int) == calls(
            files,
            fetch_ok,
            m,
        ),
    decreases n - m,
{
    let short = calls(files, fetch_ok, m);
    if m == n {
        assert(short.take(short.len() as int) == short);
    } else {
        let before = calls(files, fetch_ok, (n - 1) as nat);
        let last = calls_for(files[n - 1], fetch_ok(n - 1));
        lemma_calls_extend(files, fetch_ok, m, (n - 1) as nat);
        assert((before + last).take(short.len() as int) == before.take(short.len() as int));
    }
}

/// Where every one of the first `n` fetches succeeds, all `n` count.
pub proof fn lemma_successes_all(fetch_ok: spec_fn(int) -> bool, n: nat)
    requires
        forall|i: int| 0 <= i < n ==> #[trigger] fetch_ok(i),
    ensures
        successes(fetch_ok, n) == n,
    decreases n,
{
    if n > 0 {
        lemma_successes_all(fetch_ok, (n - 1) as nat);
    }
}

/// The fetch of file `i` stands after the requests of the files before it,
/// and its delete, where the fetch succeeded, directly behind it.
pub proof fn lemma_calls_at(
    files: Seq<RemoteFileView>,
    fetch_ok: spec_fn(int) -> bool,
    n: nat,
    i: int,
)
    requires
        0 <= i < n,
    ensures
        i + successes(fetch_ok, i as nat) < calls(files, fetch_ok, n).len(),
        calls(files, fetch_ok, n)[i + successes(fetch_ok, i as nat)] == ActionView::Fetch(
            files[i],
        ),
        fetch_ok(i) ==> i + successes(fetch_ok, i as nat) + 1 < calls(files, fetch_ok, n).len()
            && calls(files, fetch_ok, n)[i + successes(fetch_ok, i as nat) + 1]
            == ActionView::Delete(files[i]),
{
    let before = calls(files, fetch_ok, i as nat);
    let through = calls(files, fetch_ok, (i + 1) as nat);
    let all = calls(files, fetch_ok, n);
    lemma_calls_counts(files, fetch_ok, i as nat);
    lemma_calls_counts(files, fetch_ok, (i + 1) as nat);
    lemma_calls_extend(files, fetch_ok, (i + 1) as nat, n);
    let at = before.len() as int;
    assert(through == before + calls_for(files[i], fetch_ok(i)));
    assert(all.take(through.len() as int)[at] == through[at]);
    if fetch_ok(i) {
        assert(all.take(through.len() as int)[at + 1] == through[at + 1]);
    }
}

/// A delete among the requests of the first `n` files belongs to a file
/// whose fetch succeeded, and stands directly behind that fetch.
pub proof fn lemma_calls_delete(
    files: Seq<RemoteFileView>,
    fetch_ok: spec_fn(int) -> bool,
    n: nat,
    k: int,
) -> (i: int)
    requires
        0 <= k < calls(files, fetch_ok, n).len(),
        calls(files, fetch_ok, n)[k] is Delete,
    ensures
        0 <= i < n,
        fetch_ok(i),
        k == i + successes(fetch_ok, i as nat) + 1,
        calls(files, fetch_ok, n)[k] == ActionView::Delete(files[i]),
        calls(files, fetch_ok, n)[k - 1] == ActionView::Fetch(files[i]),
    decreases n,
{
    let before = calls(files, fetch_ok, (n - 1) as nat);
    lemma_calls_counts(files, fetch_ok, (n - 1) as nat);
    if k < before.len() {
        let i = lemma_calls_delete(files, fetch_ok, (n - 1) as nat, k);
        assert(calls(files, fetch_ok, n)[k - 1] == before[k - 1]);
        i
    } else {
        n - 1
    }
}

/// Two cameras that agree on the first `n` fetches are asked the same for
/// the first `n` files.
pub proof fn lemma_calls_agree(
    files: Seq<RemoteFileView>,
    one: spec_fn(int) -> bool,
    other: spec_fn(int) -> bool,
    n: nat,
)
    requires
        forall|j: int| 0 <= j < n ==> #[trigger] one(j) == other(j),
    ensures
        calls(files, one, n) == calls(files, other, n),
        successes(one, n) == successes(other, n),
    decreases n,
{
    if n > 0 {
        lemma_calls_agree(files, one, other, (n - 1) as nat);
    }
}

/// The same camera with the fetch at position `i` made to succeed.
pub open spec fn with_fetched(camera: Camera, i: int) -> Camera {
    Camera { fetch_ok: |j: int| j == i || (camera.fetch_ok)(j), ..camera }
}

proof fn lemma_calls_without_delete(
    files: Seq<RemoteFileView>,
    failing: spec_fn(int) -> bool,
    fetching: spec_fn(int) -> bool,
    i: int,
    n: nat,
)
    requires
        0 <= i < n,
        !failing(i),
        forall|j: int| #[trigger] fetching(j) == (j == i || failing(j)),
    ensures
        calls(files, failing, n) == calls(files, fetching, n).remove(
            i + successes(failing, i as nat) + 1,
        ),
    decreases n,
{
    let at = i + successes(failing, i as nat) + 1;
    let before = calls(files, fetching, (n - 1) as nat);
    let last = calls_for(files[n - 1], fetching(n - 1));
    if i == n - 1 {
        lemma_calls_agree(files, failing, fetching, i as nat);
        lemma_calls_counts(files, failing, i as nat);
        assert(calls(files, failing, n) == (before + last).remove(at));
    } else {
        lemma_calls_without_delete(files, failing, fetching, i, (n - 1) as nat);
        lemma_calls_at(files, fetching, (n - 1) as nat, i);
        lemma_calls_agree(files, failing, fetching, i as nat);
        assert((before + last).remove(at) == before.remove(at) + last);
    }
}

/// Where no fetch fails, a run fetches every file of the catalog once and
/// deletes every file once, in catalog order, each delete directly after
/// the fetch of the same file.
pub proof fn law_all_fetched_all_deleted(catalog: CatalogView, camera: Camera)
    requires
        camera.listing == Some(catalog),
        forall|i: int| 0 <= i < catalog.file_count() ==> #[trigger] (camera.fetch_ok)(i),
    ensures
        fetches(camera.run()) == catalog.file_count(),
        deletes(camera.run()) == catalog.file_count(),
        camera.run().len() == 2 * catalog.file_count() + 2,
        forall|i: int|
            0 <= i < catalog.file_count() ==> camera.run()[1 + 2 * i] == ActionView::Fetch(
                #[trigger] catalog.remote_files()[i],
            ) && camera.run()[2 + 2 * i] == ActionView::Delete(catalog.remote_files()[i]),
{
    let files = catalog.remote_files();
    let n = catalog.file_count();
    let ok = camera.fetch_ok;
    lemma_files_of_len(catalog.directories);
    law_run_follows_script(camera);
    lemma_script_counts(camera);
    lemma_successes_all(ok, n);
    assert forall|i: int| 0 <= i < n implies camera.run()[1 + 2 * i] == ActionView::Fetch(
        #[trigger] files[i],
    ) && camera.run()[2 + 2 * i] == ActionView::Delete(files[i]) by {
        lemma_successes_all(ok, i as nat);
        lemma_calls_at(files, ok, n, i);
    }
}

/// The counts of a whole run: one fetch per listed file, one delete per
/// fetch that succeeded.
pub proof fn lemma_script_counts(camera: Camera)
    ensures
        fetches(script(camera)) == camera.files().len(),
        deletes(script(camera)) == successes(camera.fetch_ok, camera.files().len()),
        script(camera).len() == camera.files().len() + successes(
            camera.fetch_ok,
            camera.files().len(),
        ) + 2,
{
    let list = seq![ActionView::List];
    lemma_counts_of_one(ActionView::List);
    match camera.listing {
        Some(catalog) => {
            let n = catalog.file_count();
            let walk = calls(catalog.remote_files(), camera.fetch_ok, n);
            let complete = seq![ActionView::Complete];
            lemma_files_of_len(catalog.directories);
            lemma_calls_counts(catalog.remote_files(), camera.fetch_ok, n);
            lemma_counts_of_one(ActionView::Complete);
            lemma_counts_add(list, walk);
            lemma_counts_add(list + walk, complete);
        },
        None => {
            assert(script(camera).drop_last() == list);
        },
    }
}

/// A file whose fetch fails is not deleted, and the walk goes on as if
/// nothing had happened: the next request is the fetch of the next file, or
/// the end of the walk after the last; every file of the catalog is still
/// fetched; and the run differs from the one in which this fetch succeeds
/// only in that the delete of this file is missing.
pub proof fn law_failed_fetch_is_skipped(catalog: CatalogView, camera: Camera, i: int)
    requires
        camera.listing == Some(catalog),
        0 <= i < catalog.file_count(),
        !(camera.fetch_ok)(i),
    ensures
        ({
            let run = camera.run();
            let files = catalog.remote_files();
            let at = 1 + i + successes(camera.fetch_ok, i as nat);
            &&& at + 1 < run.len()
            &&& run[at] == ActionView::Fetch(files[i])
            &&& run[at + 1] == if i + 1 < catalog.file_count() {
                ActionView::Fetch(files[i + 1])
            } else {
                ActionView::Complete
            }
            &&& fetches(run) == catalog.file_count()
            &&& run == with_fetched(camera, i).run().remove(at + 1)
            &&& (forall|j: int| 0 <= j < files.len() && j != i ==> files[j] != files[i])
                ==> forall|k: int| 0 <= k < run.len() ==> run[k] != ActionView::Delete(files[i])
        }),
{
    let files = catalog.remote_files();
    let n = catalog.file_count();
    let ok = camera.fetch_ok;
    let walk = calls(files, ok, n);
    let at = i + successes(ok, i as nat);
    lemma_files_of_len(catalog.directories);
    law_run_follows_script(camera);
    lemma_script_counts(camera);
    lemma_calls_counts(files, ok, n);
    lemma_calls_at(files, ok, n, i);
    if i + 1 < n {
        lemma_calls_at(files, ok, n, i + 1);
    } else {
        assert(at + 1 == walk.len());
    }
    let retry = with_fetched(camera, i);
    let again = calls(files, retry.fetch_ok, n);
    law_run_follows_script(retry);
    lemma_calls_without_delete(files, ok, retry.fetch_ok, i, n);
    lemma_calls_at(files, retry.fetch_ok, n, i);
    lemma_calls_agree(files, ok, retry.fetch_ok, i as nat);
    assert((seq![ActionView::List] + again + seq![ActionView::Complete]).remove(at + 2) == seq![
        ActionView::List,
    ] + again.remove(at + 1) + seq![ActionView::Complete]);
    if forall|j: int| 0 <= j < files.len() && j != i ==> files[j] != files[i] {
        assert forall|k: int| 0 <= k < camera.run().len() implies camera.run()[k]
            != ActionView::Delete(files[i]) by {
            if camera.run()[k] is Delete {
                let j = law_delete_follows_fetch(camera, k);
            }
        }
    }
}

/// Whatever the camera does, a run deletes a file only directly after it
/// fetched that file, and only where that fetch succeeded.
pub proof fn law_delete_follows_fetch(camera: Camera, k: int) -> (i: int)
    requires
        0 <= k < camera.run().len(),
        camera.run()[k] is Delete,
    ensures
        0 <= i < camera.files().len(),
        (camera.fetch_ok)(i),
        k == 2 + i + successes(camera.fetch_ok, i as nat),
        camera.run()[k - 1] == ActionView::Fetch(camera.files()[i]),
        camera.run()[k] == ActionView::Delete(camera.files()[i]),
{
    law_run_follows_script(camera);
    lemma_script_counts(camera);
    match camera.listing {
        Some(catalog) => {
            lemma_files_of_len(catalog.directories);
            let walk = calls(catalog.remote_files(), camera.fetch_ok, catalog.file_count());
            assert(camera.run()[k] == walk[k - 1]);
            let i = lemma_calls_delete(
                catalog.remote_files(),
                camera.fetch_ok,
                catalog.file_count(),
                k - 1,
            );
            assert(camera.run()[k - 1] == walk[k - 2]);
            i
        },
        None => 0,
    }
}

/// How a delete ends has no part in what a run asks for: two cameras that
/// list the same and answer the fetch of every listed file alike are asked
/// the same.
pub proof fn law_delete_outcome_is_ignored(camera: Camera, other: Camera)
    requires
        camera.listing == other.listing,
        forall|i: int|
            0 <= i < camera.files().len() ==> #[trigger] (camera.fetch_ok)(i) == (other.fetch_ok)(
                i,
            ),
    ensures
        camera.run() == other.run(),
{
    law_run_follows_script(camera);
    law_run_follows_script(other);
    if let Some(catalog) = camera.listing {
        lemma_files_of_len(catalog.directories);
        lemma_calls_agree(
            catalog.remote_files(),
            camera.fetch_ok,
            other.fetch_ok,
            catalog.file_count(),
        );
    }
}

/// Where the listing fails, the run ends at once: nothing is fetched and
/// nothing is deleted.
pub proof fn law_failed_listing_touches_no_file(camera: Camera)
    requires
        camera.listing is None,
    ensures
        camera.run() == seq![ActionView::List, ActionView::Abort],
        fetches(camera.run()) == 0,
        deletes(camera.run()) == 0,
{
    law_run_follows_script(camera);
    lemma_script_counts(camera);
}

} // verus!
