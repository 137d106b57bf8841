use vstd::prelude::*;

verus! {

/// What a boundary observes of one resource read during its render.
#[derive(Clone, Copy, Debug, PartialEq, Eq)]
pub enum Status<E> {
    Pending,
    Ready,
    Failed(E),
}

/// What a boundary renders.
#[derive(Clone, Copy, Debug, PartialEq, Eq)]
pub enum Shown<C, E> {
    Fallback,
    Content(C),
    /// A failure handed on to the error boundary around it.
    Error(E),
}

/// Two statuses taken together: pending wins, then the first failure.
pub open spec fn join<E>(a: Status<E>, b: Status<E>) -> Status<E> {
    if a is Pending || b is Pending {
        Status::Pending
    } else if a is Failed {
        a
    } else {
        b
    }
}

/// The status of a set of resources, in order of registration: pending if
/// any is, else the first failure, else ready.
pub open spec fn aggregate<E>(s: Seq<Status<E>>) -> Status<E>
    decreases s.len(),
{
    if s.len() == 0 {
        Status::Ready
    } else {
        join(aggregate(s.drop_last()), s.last())
    }
}

/// What a suspense boundary renders over members `s` with `content`.
pub open spec fn suspense_shown<C, E>(s: Seq<Status<E>>, content: C) -> Shown<C, E> {
    match aggregate(s) {
        Status::Pending => Shown::Fallback,
        Status::Failed(e) => Shown::Error(e),
        Status::Ready => Shown::Content(content),
    }
}

/// What a transition boundary renders over members `s` with `content`, when
/// `last` is the content it rendered last, if any: while pending it keeps
/// that content, and falls back only when there is none.
pub open spec fn transition_shown<C, E>(
    s: Seq<Status<E>>,
    last: Option<C>,
    content: C,
) -> Shown<C, E> {
    match aggregate(s) {
        Status::Pending => match last {
            Some(c) => Shown::Content(c),
            None => Shown::Fallback,
        },
        Status::Failed(e) => Shown::Error(e),
        Status::Ready => Shown::Content(content),
    }
}

/// The set of members is pending exactly when one of them is.
pub proof fn lemma_pending_iff_member_pending<E>(s: Seq<Status<E>>)
    ensures
        aggregate(s) is Pending <==> exists|i: int| 0 <= i < s.len() && #[trigger] s[i] is Pending,
    decreases s.len(),
{
    if s.len() > 0 {
        let p = s.drop_last();
        lemma_pending_iff_member_pending(p);
        if exists|i: int| 0 <= i < p.len() && #[trigger] p[i] is Pending {
            let i = choose|i: int| 0 <= i < p.len() && #[trigger] p[i] is Pending;
            assert(s[i] == p[i]);
        }
        if exists|i: int| 0 <= i < s.len() && #[trigger] s[i] is Pending {
            let i = choose|i: int| 0 <= i < s.len() && #[trigger] s[i] is Pending;
            if i < s.len() - 1 {
                assert(p[i] == s[i]);
            }
        }
    }
}

/// The status of all members, in order of registration.
fn aggregate_of<E: Copy>(members: &Vec<Status<E>>) -> (r: Status<E>)
    ensures
        r == aggregate(members@),
{
    let mut acc: Status<E> = Status::Ready;
    let mut i: usize = 0;
    while i < members.len()
        invariant
            0 <= i <= members.len(),
            acc == aggregate(members@.take(i as int)),
        decreases members.len() - i,
    {
        let m = members[i];
        proof {
            assert(members@.take(i + 1).drop_last() =~= members@.take(i as int));
        }
        acc = match (acc, m) {
            (Status::Pending, _) => Status::Pending,
            (_, Status::Pending) => Status::Pending,
            (Status::Failed(e), _) => Status::Failed(e),
            (_, b) => b,
        };
        i += 1;
    }
    proof {
        assert(members@.take(members.len() as int) =~= members@);
    }
    acc
}

/// Renders a fallback while any resource read beneath it is pending, and
/// its content once all are ready. Members are registered anew each pass.
pub struct SuspenseBoundary<E> {
    members: Vec<Status<E>>,
}

impl<E: Copy> SuspenseBoundary<E> {
    /// A boundary with no members, as when its subtree mounts.
    pub fn new() -> (r: Self)
        ensures
            r.members() == Seq::<Status<E>>::empty(),
    {
        SuspenseBoundary { members: Vec::new() }
    }

    /// The statuses registered in the current pass.
    pub closed spec fn members(&self) -> Seq<Status<E>> {
        self.members@
    }

    /// Starts a render pass: the registrations of the last pass are dropped.
    pub fn begin_pass(&mut self)
        ensures
            final(self).members() == Seq::<Status<E>>::empty(),
    {
        self.members = Vec::new();
    }

    /// Registers a resource read during this pass.
    pub fn register(&mut self, status: Status<E>)
        ensures
            final(self).members() == old(self).members().push(status),
    {
        self.members.push(status);
    }

    /// What the boundary shows: the fallback exactly when a member is
    /// pending, else a member's failure, else `content`.
    pub fn render<C>(&self, content: C) -> (r: Shown<C, E>)
        ensures
            r == suspense_shown(self.members(), content),
            r is Fallback <==> exists|i: int|
                0 <= i < self.members().len() && #[trigger] self.members()[i] is Pending,
    {
        proof {
            lemma_pending_iff_member_pending(self.members@);
        }
        match aggregate_of(&self.members) {
            Status::Pending => Shown::Fallback,
            Status::Failed(e) => Shown::Error(e),
            Status::Ready => Shown::Content(content),
        }
    }
}

/// Like a suspense boundary, but once content has been shown it stays in
/// view while members reload, until they are all ready again.
pub struct TransitionBoundary<C, E> {
    members: Vec<Status<E>>,
    last: Option<C>,
}

impl<C: Copy, E: Copy> TransitionBoundary<C, E> {
    /// A boundary that has shown nothing yet.
    pub fn new() -> (r: Self)
        ensures
            r.members() == Seq::<Status<E>>::empty(),
            r.last_shown() == None::<C>,
    {
        TransitionBoundary { members: Vec::new(), last: None }
    }

    /// The statuses registered in the current pass.
    pub closed spec fn members(&self) -> Seq<Status<E>> {
        self.members@
    }

    /// The content the boundary rendered last, if any.
    pub closed spec fn last_shown(&self) -> Option<C> {
        self.last
    }

    /// Starts a render pass: the registrations of the last pass are dropped.
    pub fn begin_pass(&mut self)
        ensures
            final(self).members() == Seq::<Status<E>>::empty(),
            final(self).last_shown() == old(self).last_shown(),
    {
        self.members = Vec::new();
    }

    /// Registers a resource read during this pass.
    pub fn register(&mut self, status: Status<E>)
        ensures
            final(self).members() == old(self).members().push(status),
            final(self).last_shown() == old(self).last_shown(),
    {
        self.members.push(status);
    }

    /// What the boundary shows. While a member is pending it keeps the
    /// content it showed last, and shows the fallback only if it never
    /// showed any; once all are ready it shows `content` and keeps it.
    pub fn render(&mut self, content: C) -> (r: Shown<C, E>)
        ensures
            r == transition_shown(old(self).members(), old(self).last_shown(), content),
            final(self).members() == old(self).members(),
            final(self).last_shown() == (if aggregate(old(self).members()) is Ready {
                Some(content)
            } else {
                old(self).last_shown()
            }),
            r is Fallback <==> (old(self).last_shown() is None && exists|i: int|
                0 <= i < old(self).members().len() && #[trigger] old(self).members()[i] is Pending),
    {
        proof {
            lemma_pending_iff_member_pending(self.members@);
        }
        match aggregate_of(&self.members) {
            Status::Pending => match self.last {
                Some(c) => Shown::Content(c),
                None => Shown::Fallback,
            },
            Status::Failed(e) => Shown::Error(e),
            Status::Ready => {
                self.last = Some(content);
                Shown::Content(content)
            },
        }
    }
}

} // verus!
