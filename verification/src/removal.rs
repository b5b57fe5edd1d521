//! Passes that remove volumes one after the other, until one of them cannot be removed.
use vstd::prelude::*;
use vstd::string::*;

use crate::volume::{may_remove, refers_to, referred, without_volume, VolumeManager, Volumes};

verus! {

/// Where a pass stands.
#[verifier::ext_equal]
pub struct Pass<E> {
    /// The names that the pass has yet to come to.
    pub left: Seq<Seq<char>>,
    /// The names of the volumes that were removed.
    pub removed: Seq<Seq<char>>,
    /// Why the pass was stopped, if it was.
    pub failure: Option<E>,
}

/// A pass over `names` before its first step.
pub open spec fn begun<E>(names: Seq<Seq<char>>) -> Pass<E> {
    Pass { left: names, removed: Seq::empty(), failure: None }
}

impl<E> Pass<E> {
    /// The pass past the first `n` of the names that are left.
    pub open spec fn past(self, n: int) -> Pass<E> {
        Pass { left: self.left.skip(n), ..self }
    }

    /// The pass once the volume `name` was removed.
    pub open spec fn recorded(self, name: Seq<char>) -> Pass<E> {
        Pass { removed: self.removed.push(name), ..self }
    }

    /// The pass once a volume could not be removed: nothing is left.
    pub open spec fn stopped(self, error: E) -> Pass<E> {
        Pass { left: Seq::empty(), removed: self.removed, failure: Some(error) }
    }
}

/// The line shown for a volume that was removed.
pub fn removal_notice(name: &str) -> (r: String)
    ensures
        r@ == name@ + " removed"@,
{
    name.to_string().concat(" removed")
}

/// Volumes to remove, one after the other.
pub struct Removal<E> {
    names: Vec<String>,
    next: usize,
    removed: Vec<String>,
    failure: Option<E>,
}

impl<E> View for Removal<E> {
    type V = Pass<E>;

    closed spec fn view(&self) -> Pass<E> {
        Pass {
            left: self.names.deep_view().skip(self.next as int),
            removed: self.removed.deep_view(),
            failure: self.failure,
        }
    }
}

impl<E> Removal<E> {
    #[verifier::type_invariant]
    closed spec fn wf(&self) -> bool {
        self.next <= self.names.len()
    }

    /// A removal of the volumes `names`.
    pub(crate) fn begin(names: Vec<String>) -> (r: Self)
        ensures
            r@ == begun::<E>(names.deep_view()),
    {
        let removed: Vec<String> = Vec::new();
        proof {
            assert(names.deep_view().skip(0) =~= names.deep_view());
            assert(removed.deep_view() =~= Seq::empty());
        }
        Removal { names, next: 0, removed, failure: None }
    }

    /// The next volume to remove, if one is left.
    pub fn next(&mut self) -> (r: Option<String>)
        ensures
            match r {
                Some(name) => {
                    &&& old(self)@.left.len() > 0
                    &&& name@ == old(self)@.left[0]
                    &&& final(self)@ == old(self)@.past(1)
                },
                None => old(self)@.left.len() == 0 && final(self)@ == old(self)@,
            },
            r is Some ==> final(self)@.left == old(self)@.left.drop_first(),
            final(self)@.removed == old(self)@.removed,
            final(self)@.failure == old(self)@.failure,
    {
        proof {
            use_type_invariant(&*self);
        }
        if self.next == self.names.len() {
            return None;
        }
        let at: usize = self.next;
        let name: String = self.names[at].clone();
        self.next = at + 1;
        proof {
            let names = self.names.deep_view();
            assert(names.skip(at as int)[0] == names[at as int]);
            assert(names.skip(at as int).skip(1) =~= names.skip(at + 1));
        }
        Some(name)
    }

    /// Notes that the volume `name` was removed.
    pub fn record(&mut self, name: String)
        ensures
            final(self)@ == old(self)@.recorded(name@),
            final(self)@.left == old(self)@.left,
            final(self)@.removed == old(self)@.removed.push(name@),
            final(self)@.failure == old(self)@.failure,
    {
        proof {
            use_type_invariant(&*self);
        }
        let ghost before = self.removed;
        let mut removed: Vec<String> = Vec::new();
        std::mem::swap(&mut self.removed, &mut removed);
        removed.push(name);
        self.removed = removed;
        assert(self.removed.deep_view() =~= before.deep_view().push(name@));
    }

    /// Notes that a volume could not be removed, which ends the removal: no volume is left.
    pub fn failed(&mut self, error: E)
        ensures
            final(self)@ == old(self)@.stopped(error),
            final(self)@.left.len() == 0,
            final(self)@.removed == old(self)@.removed,
            final(self)@.failure == Some(error),
    {
        let n: usize = self.names.len();
        self.next = n;
        self.failure = Some(error);
        assert(self.names.deep_view().skip(n as int) =~= Seq::empty());
    }

    /// The names of the volumes that were removed, first to last, or else the error that ended
    /// the removal.
    pub fn finish(self) -> (r: Result<Vec<String>, E>)
        ensures
            match self@.failure {
                Some(error) => r == Err::<Vec<String>, E>(error),
                None => r matches Ok(names) && names.deep_view() == self@.removed,
            },
    {
        match self.failure {
            Some(error) => Err(error),
            None => Ok(self.removed),
        }
    }
}

/// A pass over the volumes that removes those that no container refers to.
pub struct Pruning<E> {
    pass: Removal<E>,
}

impl<E> View for Pruning<E> {
    type V = Pass<E>;

    closed spec fn view(&self) -> Pass<E> {
        self.pass@
    }
}

/// The names among `names` that are not in `mounted`.
pub open spec fn unused(names: Seq<Seq<char>>, mounted: Seq<Seq<char>>) -> Seq<Seq<char>> {
    names.filter(|name: Seq<char>| !mounted.contains(name))
}

/// The place of the first name in `left` that is not in `mounted`, or the length of `left`
/// where there is none.
pub open spec fn first_unused(left: Seq<Seq<char>>, mounted: Seq<Seq<char>>) -> int
    decreases left.len(),
{
    if left.len() == 0 || !mounted.contains(left[0]) {
        0
    } else {
        1 + first_unused(left.drop_first(), mounted)
    }
}

/// The first unused name is not in use, and those before it are; where there is none, all are
/// in use.
pub proof fn first_unused_bounds(left: Seq<Seq<char>>, mounted: Seq<Seq<char>>)
    ensures
        0 <= first_unused(left, mounted) <= left.len(),
        forall|j: int|
            0 <= j < first_unused(left, mounted) ==> mounted.contains(#[trigger] left[j]),
        first_unused(left, mounted) < left.len() ==> !mounted.contains(
            left[first_unused(left, mounted)],
        ),
    decreases left.len(),
{
    if left.len() > 0 && mounted.contains(left[0]) {
        let rest = left.drop_first();
        first_unused_bounds(rest, mounted);
        assert forall|j: int| 0 <= j < first_unused(left, mounted) implies mounted.contains(
            #[trigger] left[j],
        ) by {
            if j > 0 {
                assert(rest[j - 1] == left[j]);
            }
        }
    }
}

impl<E> Pruning<E> {
    /// A pass over the volumes `names`.
    pub(crate) fn begin(names: Vec<String>) -> (r: Self)
        ensures
            r@ == begun::<E>(names.deep_view()),
    {
        Pruning { pass: Removal::begin(names) }
    }

    /// The next volume to remove, if there is one: the first among those left that no
    /// container refers to.
    pub fn next(&mut self, manager: &VolumeManager, mounted: &Vec<String>) -> (r: Option<String>)
        ensures
            ({
                let left = old(self)@.left;
                let k = first_unused(left, mounted.deep_view());
                match r {
                    Some(name) => {
                        &&& k < left.len()
                        &&& name@ == left[k]
                        &&& final(self)@ == old(self)@.past(k + 1)
                    },
                    None => k == left.len() && final(self)@ == old(self)@.past(k),
                }
            }),
            final(self)@.removed == old(self)@.removed,
            final(self)@.failure == old(self)@.failure,
            match r {
                Some(name) => {
                    let k = old(self)@.left.len() - final(self)@.left.len() - 1;
                    &&& 0 <= k < old(self)@.left.len()
                    &&& old(self)@.left[k] == name@
                    &&& !mounted.deep_view().contains(name@)
                    &&& forall|j: int|
                        0 <= j < k ==> mounted.deep_view().contains(#[trigger] old(self)@.left[j])
                    &&& final(self)@.left == old(self)@.left.skip(k + 1)
                },
                None => {
                    &&& final(self)@.left.len() == 0
                    &&& forall|j: int|
                        0 <= j < old(self)@.left.len() ==> mounted.deep_view().contains(
                            #[trigger] old(self)@.left[j],
                        )
                },
            },
    {
        let ghost left = self@.left;
        let ghost names = mounted.deep_view();
        let ghost mut done: int = 0;
        proof {
            first_unused_bounds(left, names);
        }
        assert(left.skip(0) =~= left);
        loop
            invariant
                left == old(self)@.left,
                names == mounted.deep_view(),
                forall|j: int|
                    0 <= j < first_unused(left, names) ==> names.contains(#[trigger] left[j]),
                first_unused(left, names) <= left.len(),
                0 <= done <= left.len(),
                self@ == old(self)@.past(done),
                first_unused(left, names) == done + first_unused(left.skip(done), names),
            decreases left.len() - done,
        {
            match self.pass.next() {
                Some(name) => {
                    assert(left.skip(done)[0] == left[done]);
                    assert(left.skip(done).skip(1) =~= left.skip(done + 1));
                    if !manager.is_volume_in_use(&name, mounted) {
                        return Some(name);
                    }
                    proof {
                        assert(left.skip(done).drop_first() =~= left.skip(done + 1));
                        done = done + 1;
                    }
                },
                None => {
                    return None;
                },
            }
        }
    }

    /// Notes that the volume `name` was removed.
    pub fn record(&mut self, name: String)
        ensures
            final(self)@ == old(self)@.recorded(name@),
            final(self)@.left == old(self)@.left,
            final(self)@.removed == old(self)@.removed.push(name@),
            final(self)@.failure == old(self)@.failure,
    {
        self.pass.record(name);
    }

    /// Notes that a volume could not be removed, which ends the pass: no volume is left.
    pub fn failed(&mut self, error: E)
        ensures
            final(self)@ == old(self)@.stopped(error),
            final(self)@.left.len() == 0,
            final(self)@.removed == old(self)@.removed,
            final(self)@.failure == Some(error),
    {
        self.pass.failed(error);
    }

    /// The names of the volumes that were removed, first to last, or else the error that ended
    /// the pass.
    pub fn finish(self) -> (r: Result<Vec<String>, E>)
        ensures
            match self@.failure {
                Some(error) => r == Err::<Vec<String>, E>(error),
                None => r matches Ok(names) && names.deep_view() == self@.removed,
            },
    {
        self.pass.finish()
    }
}

/// `s` without the volumes in `names`.
pub open spec fn without_volumes(s: Volumes, names: Seq<Seq<char>>) -> Volumes
    decreases names.len(),
{
    if names.len() == 0 {
        s
    } else {
        without_volumes(without_volume(s, names[0]), names.drop_first())
    }
}

/// Taking volumes out takes out exactly those, and leaves the others as they were.
pub proof fn without_volumes_keeps_the_rest(s: Volumes, names: Seq<Seq<char>>, name: Seq<char>)
    ensures
        without_volumes(s, names).volumes.contains_key(name) <==> s.volumes.contains_key(name)
            && !names.contains(name),
        without_volumes(s, names).volumes.contains_key(name) ==> without_volumes(
            s,
            names,
        ).volumes[name] == s.volumes[name],
    decreases names.len(),
{
    if names.len() > 0 {
        without_volumes_keeps_the_rest(without_volume(s, names[0]), names.drop_first(), name);
        if names.contains(name) && name != names[0] {
            let i = names.index_of(name);
            assert(names.drop_first()[i - 1] == name);
        }
        if names.drop_first().contains(name) {
            let i = names.drop_first().index_of(name);
            assert(names[i + 1] == name);
        }
    }
}

/// Removing the volumes that are not in use leaves exactly those that are, as they were.
pub proof fn pruning_leaves_the_volumes_in_use(s: Volumes, mounted: Seq<Seq<char>>)
    requires
        s.wf(),
    ensures
        forall|name: Seq<char>|
            #![trigger without_volumes(s, unused(s.order, mounted)).volumes.contains_key(name)]
            without_volumes(s, unused(s.order, mounted)).volumes.contains_key(name) <==> (
            s.volumes.contains_key(name) && mounted.contains(name)),
        forall|name: Seq<char>|
            without_volumes(s, unused(s.order, mounted)).volumes.contains_key(name)
                ==> #[trigger] without_volumes(s, unused(s.order, mounted)).volumes[name]
                == s.volumes[name],
{
    let names = unused(s.order, mounted);
    let in_no_use = |name: Seq<char>| !mounted.contains(name);
    assert forall|name: Seq<char>|
        #![trigger without_volumes(s, names).volumes.contains_key(name)]
        #![trigger without_volumes(s, names).volumes[name]]
        {
            &&& without_volumes(s, names).volumes.contains_key(name) <==> (
            s.volumes.contains_key(name) && mounted.contains(name))
            &&& without_volumes(s, names).volumes.contains_key(name) ==> without_volumes(
                s,
                names,
            ).volumes[name] == s.volumes[name]
        } by {
        without_volumes_keeps_the_rest(s, names, name);
        if names.contains(name) {
            let i = names.index_of(name);
            s.order.lemma_filter_pred(in_no_use, i);
        }
        if s.volumes.contains_key(name) && !mounted.contains(name) {
            let i = s.order.index_of(name);
            s.order.lemma_filter_contains(in_no_use, i);
        }
    }
}

/// Pruning leaves exactly the volumes that a container refers to.
pub proof fn pruning_leaves_what_containers_refer_to(
    s: Volumes,
    texts: Seq<Seq<char>>,
    name: Seq<char>,
)
    requires
        s.wf(),
    ensures
        without_volumes(s, unused(s.order, referred(s, texts))).volumes.contains_key(name) <==> (
        s.volumes.contains_key(name) && refers_to(texts, s.volumes[name].mountpoint)),
{
    let mounted = referred(s, texts);
    let in_use = |n: Seq<char>| refers_to(texts, s.volumes[n].mountpoint);
    pruning_leaves_the_volumes_in_use(s, mounted);
    if mounted.contains(name) {
        s.order.lemma_filter_pred(in_use, mounted.index_of(name));
    }
    if s.volumes.contains_key(name) && in_use(name) {
        s.order.lemma_filter_contains(in_use, s.order.index_of(name));
    }
}

/// After `k` steps of a removal the first `k` of the names are gone and nothing else is: no
/// volume before the first step, and one more with each.
pub proof fn removals_add_up(s: Volumes, names: Seq<Seq<char>>, k: int)
    requires
        0 <= k < names.len(),
    ensures
        without_volumes(s, names.take(0)) == s,
        without_volumes(s, names.take(k + 1)) == without_volume(
            without_volumes(s, names.take(k)),
            names[k],
        ),
    decreases k,
{
    if k == 0 {
        assert(names.take(1).drop_first() =~= Seq::empty());
        assert(without_volumes(without_volume(s, names[0]), Seq::empty()) == without_volume(
            s,
            names[0],
        ));
    } else {
        let rest = names.drop_first();
        let t = without_volume(s, names[0]);
        removals_add_up(t, rest, k - 1);
        assert(names.take(k + 1).drop_first() =~= rest.take(k));
        assert(names.take(k).drop_first() =~= rest.take(k - 1));
    }
}

/// One step of a pass names the first volume not in use and leaves the others of them for
/// later steps, so that a pass removes each volume that is not in use, in order.
pub proof fn pruning_goes_through_the_unused_volumes(
    left: Seq<Seq<char>>,
    mounted: Seq<Seq<char>>,
    k: int,
)
    requires
        0 <= k <= left.len(),
        forall|j: int| 0 <= j < k ==> mounted.contains(#[trigger] left[j]),
        k < left.len() ==> !mounted.contains(left[k]),
    ensures
        k == left.len() ==> unused(left, mounted) == Seq::<Seq<char>>::empty(),
        k < left.len() ==> unused(left, mounted) == seq![left[k]] + unused(
            left.skip(k + 1),
            mounted,
        ),
{
    let in_no_use = |name: Seq<char>| !mounted.contains(name);
    let head = left.take(k);
    filter_of_none(head, in_no_use);
    if k < left.len() {
        let tail = left.skip(k + 1);
        assert(left =~= head + (seq![left[k]] + tail));
        Seq::filter_distributes_over_add(head, seq![left[k]] + tail, in_no_use);
        Seq::filter_distributes_over_add(seq![left[k]], tail, in_no_use);
        assert(seq![left[k]].filter(in_no_use) =~= seq![left[k]]) by {
            reveal(Seq::filter);
            assert(seq![left[k]].drop_last() =~= Seq::<Seq<char>>::empty());
            assert(Seq::<Seq<char>>::empty().filter(in_no_use) =~= Seq::<Seq<char>>::empty());
        }
        assert(head.filter(in_no_use) + (seq![left[k]] + tail.filter(in_no_use)) =~= seq![left[k]]
            + tail.filter(in_no_use));
    } else {
        assert(head =~= left);
    }
}

proof fn filter_of_none<A>(s: Seq<A>, pred: spec_fn(A) -> bool)
    requires
        forall|j: int| 0 <= j < s.len() ==> !pred(#[trigger] s[j]),
    ensures
        s.filter(pred) == Seq::<A>::empty(),
    decreases s.len(),
{
    reveal(Seq::filter);
    if s.len() > 0 {
        filter_of_none(s.drop_last(), pred);
    }
}

/// A removal after `k` steps, each of which took the next name and removed its volume.
pub open spec fn after_removals<E>(pass: Pass<E>, k: nat) -> Pass<E>
    decreases k,
{
    if k == 0 {
        pass
    } else {
        let before = after_removals(pass, (k - 1) as nat);
        before.past(1).recorded(before.left[0])
    }
}

/// A removal goes through the names in order: after `k` steps the first `k` volumes are
/// removed, the others are left, and nothing has failed. After as many steps as there are names
/// all of them are removed.
pub proof fn removal_goes_through_the_names<E>(names: Seq<Seq<char>>, k: nat)
    requires
        k <= names.len(),
    ensures
        after_removals(begun::<E>(names), k) == (Pass::<E> {
            left: names.skip(k as int),
            removed: names.take(k as int),
            failure: None,
        }),
        k == names.len() ==> after_removals(begun::<E>(names), k) == (Pass::<E> {
            left: Seq::empty(),
            removed: names,
            failure: None,
        }),
    decreases k,
{
    if k == 0 {
        assert(names.skip(0) =~= names);
        assert(names.take(0) =~= Seq::empty());
    } else {
        removal_goes_through_the_names::<E>(names, (k - 1) as nat);
        assert(names.skip(k - 1).skip(1) =~= names.skip(k as int));
        assert(names.take(k - 1).push(names[k - 1]) =~= names.take(k as int));
    }
    if k == names.len() {
        assert(names.skip(k as int) =~= Seq::empty());
        assert(names.take(k as int) =~= names);
    }
}

/// A removal in which the `k`-th volume, counted from zero, cannot be removed stops there: it
/// ends with that volume's error, exactly the volumes before it are gone, and all others, those
/// named after it among them, are as they were. None of those gone may be removed again, so
/// that a name given twice fails the second time.
pub proof fn removal_stops_at_the_first_failure<E>(
    s: Volumes,
    names: Seq<Seq<char>>,
    k: nat,
    error: E,
    other: Seq<char>,
)
    requires
        k < names.len(),
    ensures
        ({
            let end = after_removals(begun::<E>(names), k).past(1).stopped(error);
            let volumes = without_volumes(s, end.removed).volumes;
            &&& after_removals(begun::<E>(names), k).left[0] == names[k as int]
            &&& end == (Pass::<E> {
                left: Seq::empty(),
                removed: names.take(k as int),
                failure: Some(error),
            })
            &&& volumes.contains_key(other) <==> s.volumes.contains_key(other) && !names.take(
                k as int,
            ).contains(other)
            &&& volumes.contains_key(other) ==> volumes[other] == s.volumes[other]
            &&& forall|j: int, force: bool, mounted: Seq<Seq<char>>|
                0 <= j < k ==> !#[trigger] may_remove(
                    without_volumes(s, end.removed),
                    names[j],
                    force,
                    mounted,
                )
        }),
{
    removal_goes_through_the_names::<E>(names, k);
    let removed = names.take(k as int);
    without_volumes_keeps_the_rest(s, removed, other);
    let now = without_volumes(s, removed);
    assert forall|j: int, force: bool, mounted: Seq<Seq<char>>|
        0 <= j < k implies !#[trigger] may_remove(now, names[j], force, mounted) by {
        without_volumes_keeps_the_rest(s, removed, names[j]);
        assert(removed[j] == names[j]);
    }
}

/// A pass after `k` steps, each of which took the next volume that is not in `mounted` and
/// removed it.
pub open spec fn after_prunings<E>(pass: Pass<E>, mounted: Seq<Seq<char>>, k: nat) -> Pass<E>
    decreases k,
{
    if k == 0 {
        pass
    } else {
        let before = after_prunings(pass, mounted, (k - 1) as nat);
        let at = first_unused(before.left, mounted);
        before.past(at + 1).recorded(before.left[at])
    }
}

proof fn pruning_steps<E>(order: Seq<Seq<char>>, mounted: Seq<Seq<char>>, k: nat)
    requires
        k <= unused(order, mounted).len(),
    ensures
        ({
            let now = after_prunings(begun::<E>(order), mounted, k);
            &&& now.removed == unused(order, mounted).take(k as int)
            &&& now.failure == None::<E>
            &&& unused(now.left, mounted) == unused(order, mounted).skip(k as int)
        }),
    decreases k,
{
    let all = unused(order, mounted);
    if k == 0 {
        assert(all.take(0) =~= Seq::empty());
        assert(all.skip(0) =~= all);
    } else {
        pruning_steps::<E>(order, mounted, (k - 1) as nat);
        let before = after_prunings(begun::<E>(order), mounted, (k - 1) as nat);
        let at = first_unused(before.left, mounted);
        first_unused_bounds(before.left, mounted);
        pruning_goes_through_the_unused_volumes(before.left, mounted, at);
        let rest = all.skip(k - 1);
        assert(rest[0] == all[k - 1]);
        assert(at < before.left.len()) by {
            if at == before.left.len() {
                assert(unused(before.left, mounted).len() == 0);
                assert(rest.len() > 0);
            }
        }
        assert((seq![before.left[at]] + unused(before.left.skip(at + 1), mounted)).skip(1)
            =~= unused(before.left.skip(at + 1), mounted));
        assert(rest.skip(1) =~= all.skip(k as int));
        assert(all.take(k - 1).push(all[k - 1]) =~= all.take(k as int));
    }
}

/// A whole pass removes the volumes that are not in use, in order, and no other: after `k`
/// steps the first `k` of them are removed and the next one comes, and after the last of them
/// the pass is over, without a failure. What is left of the volumes then are those in use, as
/// they were.
pub proof fn a_pass_removes_the_unused_volumes<E>(s: Volumes, mounted: Seq<Seq<char>>, k: nat)
    requires
        s.wf(),
        k <= unused(s.order, mounted).len(),
    ensures
        ({
            let all = unused(s.order, mounted);
            let now = after_prunings(begun::<E>(s.order), mounted, k);
            let at = first_unused(now.left, mounted);
            &&& now.removed == all.take(k as int)
            &&& now.failure == None::<E>
            &&& k < all.len() ==> at < now.left.len() && now.left[at] == all[k as int]
            &&& k == all.len() ==> at == now.left.len() && now.removed == all
            &&& k == all.len() ==> forall|name: Seq<char>|
                #![trigger without_volumes(s, now.removed).volumes.contains_key(name)]
                without_volumes(s, now.removed).volumes.contains_key(name) <==> (
                s.volumes.contains_key(name) && mounted.contains(name))
            &&& k == all.len() ==> forall|name: Seq<char>|
                without_volumes(s, now.removed).volumes.contains_key(name)
                    ==> #[trigger] without_volumes(s, now.removed).volumes[name] == s.volumes[name]
        }),
{
    let all = unused(s.order, mounted);
    let now = after_prunings(begun::<E>(s.order), mounted, k);
    let at = first_unused(now.left, mounted);
    pruning_steps::<E>(s.order, mounted, k);
    first_unused_bounds(now.left, mounted);
    pruning_goes_through_the_unused_volumes(now.left, mounted, at);
    let rest = all.skip(k as int);
    if k < all.len() {
        assert(rest[0] == all[k as int]);
        assert(rest.len() > 0);
    } else {
        assert(rest =~= Seq::empty());
        assert(all.take(k as int) =~= all);
        if at < now.left.len() {
            assert(unused(now.left, mounted).len() > 0);
        }
        pruning_leaves_the_volumes_in_use(s, mounted);
    }
}

/// A pass in which the `k`-th unused volume, counted from zero, cannot be removed stops there:
/// it ends with that volume's error, exactly the unused volumes before it are gone, and all
/// others are as they were.
pub proof fn a_pass_stops_at_the_first_failure<E>(
    s: Volumes,
    mounted: Seq<Seq<char>>,
    k: nat,
    error: E,
    other: Seq<char>,
)
    requires
        s.wf(),
        k < unused(s.order, mounted).len(),
    ensures
        ({
            let all = unused(s.order, mounted);
            let now = after_prunings(begun::<E>(s.order), mounted, k);
            let end = now.past(first_unused(now.left, mounted) + 1).stopped(error);
            let volumes = without_volumes(s, end.removed).volumes;
            &&& end == (Pass::<E> {
                left: Seq::empty(),
                removed: all.take(k as int),
                failure: Some(error),
            })
            &&& volumes.contains_key(other) <==> s.volumes.contains_key(other) && !all.take(
                k as int,
            ).contains(other)
            &&& volumes.contains_key(other) ==> volumes[other] == s.volumes[other]
        }),
{
    pruning_steps::<E>(s.order, mounted, k);
    without_volumes_keeps_the_rest(s, unused(s.order, mounted).take(k as int), other);
}

/// A name is unused exactly if it is not in use, and unused names keep their order: one more
/// name adds itself at the end unless it is in use.
pub proof fn unused_names(names: Seq<Seq<char>>, mounted: Seq<Seq<char>>, name: Seq<char>)
    ensures
        unused(Seq::empty(), mounted).len() == 0,
        mounted.contains(name) ==> unused(names.push(name), mounted) == unused(names, mounted),
        !mounted.contains(name) ==> unused(names.push(name), mounted) == unused(
            names,
            mounted,
        ).push(name),
{
    reveal(Seq::filter);
    assert(names.push(name).drop_last() =~= names);
}

/// A pass begins with all names left, nothing removed and no failure. Going past names takes
/// them off the front, recording one puts it behind those removed, and stopping leaves none.
pub proof fn steps_of_a_pass<E>(
    pass: Pass<E>,
    names: Seq<Seq<char>>,
    n: int,
    name: Seq<char>,
    error: E,
)
    ensures
        begun::<E>(names).left == names && begun::<E>(names).removed.len() == 0 && begun::<E>(
            names,
        ).failure == None::<E>,
        pass.past(n).left == pass.left.skip(n) && pass.past(n).removed == pass.removed && pass.past(
            n,
        ).failure == pass.failure,
        pass.recorded(name).left == pass.left && pass.recorded(name).removed == pass.removed.push(
            name,
        ) && pass.recorded(name).failure == pass.failure,
        pass.stopped(error).left.len() == 0 && pass.stopped(error).removed == pass.removed
            && pass.stopped(error).failure == Some(error),
{
}

} // verus!
