use vstd::prelude::*;
use crate::error::ReimgError;
use crate::text::same_text;

verus! {

/// What a deletion run asks its driver to do next.
#[derive(Debug, Clone, Copy, PartialEq, Eq, Structural)]
pub enum DeletionRequest {
    /// Ask whether image `index` is deleted (manual mode).
    Confirm(usize),
    /// Delete image `index`.
    Delete(usize),
    /// Nothing is left to do; `DeletionRun::outcome` tells how the run ended.
    Finished,
}

/// What the driver reports back to a deletion run.
#[derive(Debug, Clone, Copy, PartialEq, Eq, Structural)]
pub enum DeletionEvent {
    /// The answer to a confirmation question.
    Answered(bool),
    /// Whether deleting the file succeeded.
    Removed(bool),
}

/// The request that follows image `i`: the next image, or the end of the run.
pub open spec fn after_image(i: int, n: nat, auto: bool) -> DeletionRequest {
    if i + 1 < n {
        if auto {
            DeletionRequest::Delete((i + 1) as usize)
        } else {
            DeletionRequest::Confirm((i + 1) as usize)
        }
    } else {
        DeletionRequest::Finished
    }
}

/// The first request of a run over `n` images.
pub open spec fn first_deletion(n: nat, auto: bool) -> DeletionRequest {
    if n == 0 {
        DeletionRequest::Finished
    } else if auto {
        DeletionRequest::Delete(0)
    } else {
        DeletionRequest::Confirm(0)
    }
}

/// The request that the run issues after `event` answers `request`; an event
/// that does not answer the request leaves it pending.
pub open spec fn next_deletion(
    n: nat,
    auto: bool,
    request: DeletionRequest,
    event: DeletionEvent,
) -> DeletionRequest {
    match request {
        DeletionRequest::Confirm(i) => match event {
            DeletionEvent::Answered(true) => DeletionRequest::Delete(i),
            DeletionEvent::Answered(false) => after_image(i as int, n, auto),
            _ => request,
        },
        DeletionRequest::Delete(i) => match event {
            DeletionEvent::Removed(_) => after_image(i as int, n, auto),
            _ => request,
        },
        DeletionRequest::Finished => request,
    }
}

/// Whether `event` reports a failed deletion for `request`.
pub open spec fn is_failure(request: DeletionRequest, event: DeletionEvent) -> bool {
    request is Delete && event == DeletionEvent::Removed(false)
}

/// The error a finished run reports: `None` when every requested deletion succeeded.
pub open spec fn deletion_error(auto: bool, failed: nat) -> Option<ReimgError> {
    if failed == 0 {
        None
    } else if auto {
        Some(ReimgError::AutoDeletionFailed(failed as usize))
    } else {
        Some(ReimgError::ManualDeletionFailed(failed as usize))
    }
}

/// The images of `images` that are not listed in `removed`, in order.
pub open spec fn remaining(images: Seq<Seq<char>>, removed: Seq<Seq<char>>) -> Seq<Seq<char>>
    decreases images.len(),
{
    if images.len() == 0 {
        seq![]
    } else {
        let prev = remaining(images.drop_last(), removed);
        if removed.contains(images.last()) {
            prev
        } else {
            prev.push(images.last())
        }
    }
}

fn listed(list: &Vec<String>, item: &String) -> (r: bool)
    ensures
        r == list.deep_view().contains(item@),
{
    let n = list.len();
    let mut i: usize = 0;
    while i < n
        invariant
            n == list@.len(),
            i <= n,
            forall|k: int| 0 <= k < i ==> list.deep_view()[k] != item@,
        decreases n - i,
    {
        if same_text(list[i].as_str(), item.as_str()) {
            assert(list.deep_view()[i as int] == item@);
            return true;
        }
        i = i + 1;
    }
    false
}

/// The images that are still there after the listed ones were deleted, in order.
pub fn remaining_images(images: &Vec<String>, removed: &Vec<String>) -> (r: Vec<String>)
    ensures
        r.deep_view() == remaining(images.deep_view(), removed.deep_view()),
{
    let ghost iv = images.deep_view();
    let mut kept: Vec<String> = Vec::new();
    let n = images.len();
    let mut i: usize = 0;
    while i < n
        invariant
            n == images@.len(),
            iv == images.deep_view(),
            i <= n,
            kept.deep_view() == remaining(iv.take(i as int), removed.deep_view()),
        decreases n - i,
    {
        assert(iv.take(i + 1).drop_last() =~= iv.take(i as int));
        let ghost before = kept.deep_view();
        if !listed(removed, &images[i]) {
            kept.push(images[i].clone());
            assert(kept.deep_view() =~= before.push(iv[i as int]));
        }
        i = i + 1;
    }
    assert(iv.take(n as int) =~= iv);
    kept
}

/// Every image that remains was an image before and is not among the deleted ones.
pub proof fn lemma_remaining_excludes(images: Seq<Seq<char>>, removed: Seq<Seq<char>>, x: Seq<char>)
    requires
        remaining(images, removed).contains(x),
    ensures
        images.contains(x),
        !removed.contains(x),
    decreases images.len(),
{
    let prev = remaining(images.drop_last(), removed);
    let cur = remaining(images, removed);
    let k = choose|k: int| 0 <= k < cur.len() && cur[k] == x;
    if k < prev.len() {
        assert(prev[k] == x);
        lemma_remaining_excludes(images.drop_last(), removed, x);
        let w = choose|w: int| 0 <= w < images.drop_last().len() && images.drop_last()[w] == x;
        assert(images[w] == x);
    } else {
        assert(images[images.len() - 1] == x);
    }
}

/// Every image that is not deleted remains.
pub proof fn lemma_remaining_keeps(images: Seq<Seq<char>>, removed: Seq<Seq<char>>, i: int)
    requires
        0 <= i < images.len(),
        !removed.contains(images[i]),
    ensures
        remaining(images, removed).contains(images[i]),
    decreases images.len(),
{
    let prev = remaining(images.drop_last(), removed);
    if i == images.len() - 1 {
        assert(remaining(images, removed).last() == images[i]);
    } else {
        assert(images.drop_last()[i] == images[i]);
        lemma_remaining_keeps(images.drop_last(), removed, i);
        let k = choose|k: int| 0 <= k < prev.len() && prev[k] == images[i];
        if !removed.contains(images.last()) {
            assert(prev.push(images.last())[k] == images[i]);
        }
    }
}

/// A finished run stays finished and counts no further failures.
pub proof fn lemma_finished_run_is_final(n: nat, auto: bool, event: DeletionEvent)
    ensures
        next_deletion(n, auto, DeletionRequest::Finished, event) == DeletionRequest::Finished,
        !is_failure(DeletionRequest::Finished, event),
{
}

/// In automatic mode every image is deleted in turn, whatever happened to the
/// one before: after image `i` the run asks to delete image `i + 1`, if any.
pub proof fn lemma_auto_continues_after_failure(n: nat, i: usize, ok: bool)
    requires
        i + 1 < n,
    ensures
        next_deletion(n, true, DeletionRequest::Delete(i), DeletionEvent::Removed(ok))
            == DeletionRequest::Delete((i + 1) as usize),
{
}

/// Law: a manual run asks before every deletion. After image `i` has been
/// handled (deleted or not), the run asks about image `i + 1`, a "no" moves on
/// to the next image without deleting, and a new request to delete image `j`
/// only ever answers a confirmation of image `j` with yes.
pub proof fn law_manual_run_asks_before_deleting(
    n: nat,
    request: DeletionRequest,
    event: DeletionEvent,
    i: usize,
    ok: bool,
)
    ensures
        i + 1 < n ==> next_deletion(n, false, DeletionRequest::Delete(i), DeletionEvent::Removed(ok))
            == DeletionRequest::Confirm((i + 1) as usize),
        i + 1 < n ==> next_deletion(
            n,
            false,
            DeletionRequest::Confirm(i),
            DeletionEvent::Answered(false),
        ) == DeletionRequest::Confirm((i + 1) as usize),
        i + 1 >= n ==> next_deletion(n, false, DeletionRequest::Delete(i), DeletionEvent::Removed(ok))
            == DeletionRequest::Finished,
        i + 1 >= n ==> next_deletion(
            n,
            false,
            DeletionRequest::Confirm(i),
            DeletionEvent::Answered(false),
        ) == DeletionRequest::Finished,
        next_deletion(n, false, request, event) == DeletionRequest::Delete(i) && request
            != DeletionRequest::Delete(i) ==> request == DeletionRequest::Confirm(i) && event
            == DeletionEvent::Answered(true),
{
}

/// Law: an automatic run never asks; it deletes the images one after the
/// other, whatever the outcome of each, and then finishes.
pub proof fn law_auto_run_deletes_in_turn(
    n: nat,
    request: DeletionRequest,
    event: DeletionEvent,
    i: usize,
    ok: bool,
)
    ensures
        !(request is Confirm) ==> !(next_deletion(n, true, request, event) is Confirm),
        i + 1 < n ==> next_deletion(n, true, DeletionRequest::Delete(i), DeletionEvent::Removed(ok))
            == DeletionRequest::Delete((i + 1) as usize),
        i + 1 >= n ==> next_deletion(n, true, DeletionRequest::Delete(i), DeletionEvent::Removed(ok))
            == DeletionRequest::Finished,
{
}

/// Law: a run starts with the first image (asking first in manual mode), or
/// finishes at once when there is none.
pub proof fn law_first_deletion(n: nat, auto: bool)
    ensures
        n == 0 ==> first_deletion(n, auto) == DeletionRequest::Finished,
        n > 0 && auto ==> first_deletion(n, auto) == DeletionRequest::Delete(0),
        n > 0 && !auto ==> first_deletion(n, auto) == DeletionRequest::Confirm(0),
{
}

/// Law: a failure is exactly a failed removal reported for a pending deletion.
pub proof fn law_failures_are_failed_deletions(request: DeletionRequest, event: DeletionEvent)
    ensures
        is_failure(request, event) <==> (request is Delete && event == DeletionEvent::Removed(false)),
{
}

/// Law: a finished run succeeds exactly when no deletion failed; otherwise it
/// reports the number of failed deletions, with the error of its mode.
pub proof fn law_outcome_reports_every_failure(auto: bool, failed: nat)
    ensures
        deletion_error(auto, failed) is None <==> failed == 0,
        failed > 0 && auto ==> deletion_error(auto, failed) == Some(
            ReimgError::AutoDeletionFailed(failed as usize),
        ),
        failed > 0 && !auto ==> deletion_error(auto, failed) == Some(
            ReimgError::ManualDeletionFailed(failed as usize),
        ),
{
}

/// The question asked before deleting one image: `Delete unused image: <path>`.
pub fn deletion_prompt(path: &str) -> (r: String)
    ensures
        r@ == "Delete unused image: "@ + path@,
{
    let mut p = String::from_str("Delete unused image: ");
    p.append(path);
    p
}

fn after_index(i: usize, n: usize, auto: bool) -> (r: DeletionRequest)
    requires
        i < n,
    ensures
        r == after_image(i as int, n as nat, auto),
{
    if i + 1 < n {
        if auto {
            DeletionRequest::Delete(i + 1)
        } else {
            DeletionRequest::Confirm(i + 1)
        }
    } else {
        DeletionRequest::Finished
    }
}

/// Deletes unused images, all of them or those the user confirms one by one.
pub struct Remover {
    paths: Vec<String>,
}

/// The decisions of one deletion run over the images of a `Remover`.
pub struct DeletionRun {
    paths: Vec<String>,
    auto: bool,
    pending: DeletionRequest,
    failed: usize,
    deleted: Vec<String>,
}

/// The images that `event` reports deleted when it answers `request`.
pub open spec fn newly_deleted(
    paths: Seq<Seq<char>>,
    request: DeletionRequest,
    event: DeletionEvent,
) -> Seq<Seq<char>> {
    match request {
        DeletionRequest::Delete(i) => if event == DeletionEvent::Removed(true) {
            seq![paths[i as int]]
        } else {
            seq![]
        },
        _ => seq![],
    }
}

/// Law: only a successful removal of the pending image records a deletion,
/// and it records that image.
pub proof fn law_deleted_images(
    paths: Seq<Seq<char>>,
    request: DeletionRequest,
    event: DeletionEvent,
    i: usize,
)
    ensures
        newly_deleted(paths, DeletionRequest::Delete(i), DeletionEvent::Removed(true)) == seq![
            paths[i as int],
        ],
        !(request is Delete && event == DeletionEvent::Removed(true)) ==> newly_deleted(
            paths,
            request,
            event,
        ) == Seq::<Seq<char>>::empty(),
{
}

impl Remover {
    pub closed spec fn paths(self) -> Seq<Seq<char>> {
        self.paths.deep_view()
    }

    pub fn new(paths: &Vec<String>) -> (r: Remover)
        ensures
            r.paths() == paths.deep_view(),
    {
        let mut copy: Vec<String> = Vec::new();
        let n = paths.len();
        let mut i: usize = 0;
        while i < n
            invariant
                n == paths@.len(),
                i <= n,
                copy.deep_view() == paths.deep_view().take(i as int),
            decreases n - i,
        {
            let ghost before = copy.deep_view();
            copy.push(paths[i].clone());
            assert(copy.deep_view() =~= before.push(paths.deep_view()[i as int]));
            assert(copy.deep_view() =~= paths.deep_view().take(i + 1));
            i = i + 1;
        }
        assert(paths.deep_view().take(n as int) =~= paths.deep_view());
        Remover { paths: copy }
    }

    /// Starts deleting every image without asking; a failed deletion does not
    /// stop the others.
    pub fn delete_all_auto(self) -> (r: DeletionRun)
        ensures
            r.paths() == self.paths(),
            r.is_auto(),
            r.deleted_images() == Seq::<Seq<char>>::empty(),
            r.request() == first_deletion(self.paths().len(), true),
            r.failures() == 0,
    {
        DeletionRun::start(self.paths, true)
    }

    /// Starts deleting the images one by one, each after the user confirms it.
    pub fn delete_manual(self) -> (r: DeletionRun)
        ensures
            r.paths() == self.paths(),
            !r.is_auto(),
            r.deleted_images() == Seq::<Seq<char>>::empty(),
            r.request() == first_deletion(self.paths().len(), false),
            r.failures() == 0,
    {
        DeletionRun::start(self.paths, false)
    }
}

impl DeletionRun {
    pub closed spec fn paths(self) -> Seq<Seq<char>> {
        self.paths.deep_view()
    }

    pub closed spec fn is_auto(self) -> bool {
        self.auto
    }

    pub closed spec fn request(self) -> DeletionRequest {
        self.pending
    }

    /// How many deletions have failed so far.
    pub closed spec fn failures(self) -> nat {
        self.failed as nat
    }

    /// The images deleted so far, in the order of their deletion.
    pub closed spec fn deleted_images(self) -> Seq<Seq<char>> {
        self.deleted.deep_view()
    }

    /// The internal consistency of a run: the pending image exists, no more
    /// deletions have failed than images were handled, and only images of the
    /// run were deleted.
    #[verifier::type_invariant]
    spec fn well_formed(self) -> bool {
        &&& match self.pending {
            DeletionRequest::Confirm(i) => !self.auto && i < self.paths@.len() && self.failed <= i,
            DeletionRequest::Delete(i) => i < self.paths@.len() && self.failed <= i,
            DeletionRequest::Finished => self.failed <= self.paths@.len(),
        }
        &&& forall|x: Seq<char>|
            #[trigger] self.deleted.deep_view().contains(x) ==> self.paths.deep_view().contains(x)
    }

    fn start(paths: Vec<String>, auto: bool) -> (r: DeletionRun)
        ensures
            r.paths() == paths.deep_view(),
            r.is_auto() == auto,
            r.request() == first_deletion(paths@.len(), auto),
            r.failures() == 0,
            r.deleted_images() == Seq::<Seq<char>>::empty(),
    {
        let pending = if paths.len() == 0 {
            DeletionRequest::Finished
        } else if auto {
            DeletionRequest::Delete(0)
        } else {
            DeletionRequest::Confirm(0)
        };
        let deleted: Vec<String> = Vec::new();
        assert(deleted.deep_view() =~= Seq::<Seq<char>>::empty());
        DeletionRun { paths, auto, pending, failed: 0, deleted }
    }

    /// The request the driver has to carry out now.
    pub fn current(&self) -> (r: DeletionRequest)
        ensures
            r == self.request(),
    {
        self.pending
    }

    /// The path of image `index`, if there is such an image.
    pub fn path(&self, index: usize) -> (r: Option<&String>)
        ensures
            r is Some == (index < self.paths().len()),
            r matches Some(p) ==> p@ == self.paths()[index as int],
    {
        if index < self.paths.len() {
            Some(&self.paths[index])
        } else {
            None
        }
    }

    /// The images deleted so far, in the order of their deletion.
    pub fn deleted(&self) -> (r: &Vec<String>)
        ensures
            r.deep_view() == self.deleted_images(),
    {
        &self.deleted
    }

    /// Takes the driver's report on the pending request and returns the next request.
    pub fn advance(&mut self, event: DeletionEvent) -> (r: DeletionRequest)
        ensures
            final(self).paths() == old(self).paths(),
            final(self).is_auto() == old(self).is_auto(),
            r == final(self).request(),
            final(self).request() == next_deletion(
                old(self).paths().len(),
                old(self).is_auto(),
                old(self).request(),
                event,
            ),
            final(self).failures() == old(self).failures() + if is_failure(
                old(self).request(),
                event,
            ) {
                1nat
            } else {
                0nat
            },
            final(self).failures() <= final(self).paths().len(),
            final(self).deleted_images() == old(self).deleted_images() + newly_deleted(
                old(self).paths(),
                old(self).request(),
                event,
            ),
            forall|x: Seq<char>|
                #[trigger] final(self).deleted_images().contains(x) ==> final(self).paths().contains(x),
    {
        proof {
            use_type_invariant(&*self);
        }
        let mut run = DeletionRun {
            paths: Vec::new(),
            auto: false,
            pending: DeletionRequest::Finished,
            failed: 0,
            deleted: Vec::new(),
        };
        std::mem::swap(&mut run, self);
        let DeletionRun { paths, auto, pending, failed, mut deleted } = run;
        let ghost pv = paths.deep_view();
        let ghost dv = deleted.deep_view();
        let n = paths.len();
        let mut next = pending;
        let mut failed_now = failed;
        match pending {
            DeletionRequest::Confirm(i) => match event {
                DeletionEvent::Answered(true) => {
                    next = DeletionRequest::Delete(i);
                },
                DeletionEvent::Answered(false) => {
                    next = after_index(i, n, auto);
                },
                _ => {},
            },
            DeletionRequest::Delete(i) => match event {
                DeletionEvent::Removed(ok) => {
                    if ok {
                        deleted.push(paths[i].clone());
                        assert(deleted.deep_view() =~= dv.push(pv[i as int]));
                    } else {
                        failed_now = failed + 1;
                    }
                    next = after_index(i, n, auto);
                },
                _ => {},
            },
            DeletionRequest::Finished => {},
        }
        proof {
            assert(deleted.deep_view() =~= dv + newly_deleted(pv, pending, event));
            assert forall|x: Seq<char>| #[trigger] deleted.deep_view().contains(x) implies pv.contains(
                x,
            ) by {
                let dn = deleted.deep_view();
                let k = choose|k: int| 0 <= k < dn.len() && dn[k] == x;
                if k < dv.len() {
                    assert(dv[k] == x);
                    assert(dv.contains(x));
                } else {
                    if let DeletionRequest::Delete(i) = pending {
                        assert(dn[k] == pv[i as int]);
                    }
                }
            }
        }
        *self = DeletionRun { paths, auto, pending: next, failed: failed_now, deleted };
        next
    }

    /// How a finished run ends: `Ok` when no deletion failed, otherwise the
    /// error of the run's mode with the number of failed deletions.
    pub fn outcome(&self) -> (r: Result<(), ReimgError>)
        ensures
            deletion_error(self.is_auto(), self.failures()) matches Some(e) ==> r == Err::<(), ReimgError>(e),
            deletion_error(self.is_auto(), self.failures()) is None ==> r is Ok,
    {
        if self.failed == 0 {
            Ok(())
        } else if self.auto {
            Err(ReimgError::AutoDeletionFailed(self.failed))
        } else {
            Err(ReimgError::ManualDeletionFailed(self.failed))
        }
    }
}

} // verus!
