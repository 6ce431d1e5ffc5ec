//! The asynchronous loading pipeline, seen from the resolver: raw payloads are
//! submitted and a handle comes back at once, while the host uploads the
//! payloads in the background and reports how each one went.

use vstd::prelude::*;

verus! {

/// A lightweight reference to a payload held by a [`Loader`]: its position in
/// the order of submission.
#[derive(Clone, Copy, Debug, PartialEq, Eq, Structural)]
pub struct Handle {
    pub id: usize,
}

/// What a submitted payload is.
#[derive(Clone, Copy, Debug, PartialEq, Eq, Structural)]
pub enum AssetKind {
    Mesh,
    Texture,
    AnimationSampler,
}

/// The state of one submitted payload.
#[derive(Clone, Copy, Debug, PartialEq, Eq, Structural)]
pub enum LoadStatus {
    Loading,
    Loaded,
    Failed,
}

/// The state of a whole load.
#[derive(Clone, Copy, Debug, PartialEq, Eq, Structural)]
pub enum Completion {
    /// Some payload is still loading and none has failed.
    Loading,
    /// Every payload has loaded.
    Complete,
    /// Some payload has failed.
    Failed,
}

/// A sub-asset of a fragment: raw data until it is submitted, a handle after.
#[derive(Clone, Debug, PartialEq, Eq)]
pub enum AssetRef {
    Data(Vec<u8>),
    Handle(Handle),
}

/// One payload handed to the pipeline.
#[derive(Clone, Debug, PartialEq, Eq)]
pub struct Submission {
    pub kind: AssetKind,
    pub data: Vec<u8>,
    pub status: LoadStatus,
}

/// The pipeline's record of every payload submitted during a load.
pub struct Loader {
    submissions: Vec<Submission>,
}

/// The sub-asset still holds raw data.
pub open spec fn is_raw(a: AssetRef) -> bool {
    a is Data
}

/// How many sub-assets of `s` still hold raw data.
pub open spec fn num_raw(s: Seq<AssetRef>) -> nat
    decreases s.len(),
{
    if s.len() == 0 {
        0
    } else {
        num_raw(s.drop_last()) + if is_raw(s.last()) { 1nat } else { 0nat }
    }
}

/// `a` after submission as payload number `id`: raw data becomes a handle,
/// a handle stays as it is.
pub open spec fn resolve_slot(a: AssetRef, id: int) -> AssetRef {
    match a {
        AssetRef::Data(_) => AssetRef::Handle(Handle { id: id as usize }),
        AssetRef::Handle(_) => a,
    }
}

/// The sub-assets `s` after their raw data has been submitted in order, the
/// first payload getting number `base`.
pub open spec fn resolve_slots(s: Seq<AssetRef>, base: int) -> Seq<AssetRef> {
    Seq::new(s.len(), |k: int| resolve_slot(s[k], base + num_raw(s.take(k))))
}

/// The payloads that submitting the raw data of `s`, in order, hands to the
/// pipeline.
pub open spec fn submissions_of(s: Seq<AssetRef>, kind: AssetKind) -> Seq<Submission>
    decreases s.len(),
{
    if s.len() == 0 {
        Seq::empty()
    } else {
        let prev = submissions_of(s.drop_last(), kind);
        match s.last() {
            AssetRef::Data(d) => prev.push(Submission { kind, data: d, status: LoadStatus::Loading }),
            AssetRef::Handle(_) => prev,
        }
    }
}

/// One payload is submitted for each sub-asset that holds raw data.
pub proof fn lemma_submissions_len(s: Seq<AssetRef>, kind: AssetKind)
    ensures
        submissions_of(s, kind).len() == num_raw(s),
    decreases s.len(),
{
    if s.len() > 0 {
        lemma_submissions_len(s.drop_last(), kind);
    }
}

/// After resolution no sub-asset holds raw data.
pub proof fn lemma_resolved_slots_hold_no_data(s: Seq<AssetRef>, base: int)
    ensures
        num_raw(resolve_slots(s, base)) == 0,
    decreases s.len(),
{
    let r = resolve_slots(s, base);
    if s.len() > 0 {
        let p = s.drop_last();
        lemma_resolved_slots_hold_no_data(p, base);
        assert(r.drop_last() =~= resolve_slots(p, base)) by {
            assert forall|k: int| 0 <= k < p.len() implies p.take(k) =~= s.take(k) by {}
        }
    }
}

/// Resolving sub-assets that hold no raw data changes nothing.
pub proof fn lemma_resolve_without_data(s: Seq<AssetRef>, base: int)
    requires
        num_raw(s) == 0,
    ensures
        resolve_slots(s, base) == s,
        submissions_of(s, AssetKind::Mesh).len() == 0,
    decreases s.len(),
{
    lemma_submissions_len(s, AssetKind::Mesh);
    assert forall|k: int| 0 <= k < s.len() implies !is_raw(#[trigger] s[k]) by {
        lemma_prefix_without_data(s, k + 1);
        assert(s.take(k + 1).last() == s[k]);
    }
    assert(resolve_slots(s, base) =~= s);
}

/// A prefix of sub-assets that hold no raw data holds none either.
pub proof fn lemma_prefix_without_data(s: Seq<AssetRef>, n: int)
    requires
        num_raw(s) == 0,
        0 <= n <= s.len(),
    ensures
        num_raw(s.take(n)) == 0,
    decreases s.len(),
{
    if n < s.len() {
        assert(s.drop_last().take(n) =~= s.take(n));
        lemma_prefix_without_data(s.drop_last(), n);
    } else {
        assert(s.take(n) =~= s);
    }
}

impl View for Loader {
    type V = Seq<Submission>;

    closed spec fn view(&self) -> Seq<Submission> {
        self.submissions@
    }
}

/// Some payload of `s` has the given status.
pub open spec fn any_with_status(s: Seq<Submission>, status: LoadStatus) -> bool {
    exists|i: int| 0 <= i < s.len() && #[trigger] s[i].status == status
}

/// The state of a load whose payloads are `s`.
pub open spec fn completion_of(s: Seq<Submission>) -> Completion {
    if any_with_status(s, LoadStatus::Failed) {
        Completion::Failed
    } else if any_with_status(s, LoadStatus::Loading) {
        Completion::Loading
    } else {
        Completion::Complete
    }
}

impl Loader {
    /// A pipeline that has been handed nothing.
    pub fn new() -> (r: Self)
        ensures
            r@ == Seq::<Submission>::empty(),
    {
        Loader { submissions: Vec::new() }
    }

    /// The number of payloads submitted so far.
    pub fn len(&self) -> (r: usize)
        ensures
            r == self@.len(),
    {
        self.submissions.len()
    }

    /// Hands `data` to the pipeline and returns its handle at once; the
    /// payload starts out loading.
    pub fn load_from_data(&mut self, kind: AssetKind, data: Vec<u8>) -> (h: Handle)
        ensures
            final(self)@ == old(self)@.push(Submission { kind, data, status: LoadStatus::Loading }),
            h.id == old(self)@.len(),
    {
        let id = self.submissions.len();
        self.submissions.push(Submission { kind, data, status: LoadStatus::Loading });
        Handle { id }
    }

    /// The payload behind `h`, if `h` was handed out by this pipeline.
    pub fn get(&self, h: Handle) -> (r: Option<&Submission>)
        ensures
            h.id < self@.len() ==> r == Some(&self@[h.id as int]),
            h.id >= self@.len() ==> r is None,
    {
        if h.id < self.submissions.len() {
            Some(&self.submissions[h.id])
        } else {
            None
        }
    }

    /// Records how the upload of the payload behind `h` went. Returns `false`,
    /// changing nothing, when `h` was not handed out by this pipeline.
    pub fn set_status(&mut self, h: Handle, status: LoadStatus) -> (r: bool)
        ensures
            r == (h.id < old(self)@.len()),
            r ==> final(self)@ == old(self)@.update(
                h.id as int,
                Submission { status, ..old(self)@[h.id as int] },
            ),
            !r ==> final(self)@ == old(self)@,
    {
        if h.id < self.submissions.len() {
            self.submissions[h.id].status = status;
            true
        } else {
            false
        }
    }

    /// The state of the whole load: failed as soon as one payload failed,
    /// complete once every payload has loaded, loading otherwise.
    pub fn completion(&self) -> (r: Completion)
        ensures
            r == completion_of(self@),
    {
        let mut loading = false;
        let mut i: usize = 0;
        while i < self.submissions.len()
            invariant
                i <= self@.len(),
                loading == exists|j: int| 0 <= j < i && #[trigger] self@[j].status == LoadStatus::Loading,
                forall|j: int| 0 <= j < i ==> #[trigger] self@[j].status != LoadStatus::Failed,
            decreases self@.len() - i,
        {
            match self.submissions[i].status {
                LoadStatus::Failed => {
                    return Completion::Failed;
                },
                LoadStatus::Loading => {
                    loading = true;
                },
                LoadStatus::Loaded => {},
            }
            i += 1;
        }
        if loading {
            Completion::Loading
        } else {
            Completion::Complete
        }
    }
}

/// A copy of sub-assets that hold no raw data: the same handles, in order.
pub fn copy_handles(slots: &Vec<AssetRef>) -> (r: Vec<AssetRef>)
    requires
        num_raw(slots@) == 0,
    ensures
        r@ == slots@,
{
    let mut out: Vec<AssetRef> = Vec::new();
    let mut i: usize = 0;
    while i < slots.len()
        invariant
            i <= slots@.len(),
            num_raw(slots@) == 0,
            out@ == slots@.take(i as int),
        decreases slots@.len() - i,
    {
        proof {
            lemma_resolve_without_data(slots@, 0);
            assert(slots@[i as int] == resolve_slot(slots@[i as int], num_raw(slots@.take(i as int)) as int));
        }
        match &slots[i] {
            AssetRef::Handle(h) => {
                out.push(AssetRef::Handle(*h));
            },
            AssetRef::Data(_) => {},
        }
        proof {
            assert(out@ =~= slots@.take(i + 1));
        }
        i += 1;
    }
    proof {
        assert(slots@.take(slots@.len() as int) =~= slots@);
    }
    out
}

/// Submits the raw data of every sub-asset in `slots`, in order, replacing
/// each with the handle that comes back. Returns whether anything was
/// submitted.
pub fn load_slots(slots: &mut Vec<AssetRef>, kind: AssetKind, loader: &mut Loader) -> (r: bool)
    ensures
        final(slots)@ == resolve_slots(old(slots)@, old(loader)@.len() as int),
        final(loader)@ == old(loader)@ + submissions_of(old(slots)@, kind),
        r == (num_raw(old(slots)@) > 0),
{
    let ghost s0 = slots@;
    let ghost base = loader@.len() as int;
    let mut any = false;
    let mut i: usize = 0;
    proof {
        assert(s0.take(0) =~= Seq::<AssetRef>::empty());
        assert(loader@ =~= old(loader)@ + submissions_of(s0.take(0), kind));
    }
    while i < slots.len()
        invariant
            i <= slots@.len(),
            slots@.len() == s0.len(),
            forall|k: int| 0 <= k < i ==> #[trigger] slots@[k] == resolve_slot(s0[k], base + num_raw(s0.take(k))),
            forall|k: int| i <= k < s0.len() ==> #[trigger] slots@[k] == s0[k],
            loader@ == old(loader)@ + submissions_of(s0.take(i as int), kind),
            base == old(loader)@.len(),
            any == (num_raw(s0.take(i as int)) > 0),
        decreases s0.len() - i,
    {
        proof {
            assert(s0.take(i + 1).drop_last() =~= s0.take(i as int));
            assert(s0.take(i + 1).last() == s0[i as int]);
            lemma_submissions_len(s0.take(i as int), kind);
        }
        let raw = match &slots[i] {
            AssetRef::Data(_) => true,
            AssetRef::Handle(_) => false,
        };
        if raw {
            let mut taken = AssetRef::Handle(Handle { id: loader.len() });
            std::mem::swap(&mut slots[i], &mut taken);
            match taken {
                AssetRef::Data(d) => {
                    let _h = loader.load_from_data(kind, d);
                },
                AssetRef::Handle(_) => {},
            }
            any = true;
        }
        proof {
            assert(loader@ =~= old(loader)@ + submissions_of(s0.take(i + 1), kind));
        }
        i += 1;
    }
    proof {
        assert(s0.take(s0.len() as int) =~= s0);
        assert(slots@ =~= resolve_slots(s0, base));
    }
    any
}

} // verus!
