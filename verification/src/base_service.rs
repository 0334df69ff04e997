//! Dispatching with session pooling: one session per URI authority.

use dashmap::{DashMap, Entry};
use vstd::prelude::*;

use crate::dispatch::{expected, next_step, Action, Dispatch, Outcome};
use crate::uri::{UriParts, UriView};

verus! {

/// `dashmap::DashMap`, a concurrent hash map.
#[verifier::external_type_specification]
#[verifier::external_body]
#[verifier::reject_recursive_types(K)]
#[verifier::reject_recursive_types(V)]
#[verifier::reject_recursive_types(S)]
pub struct ExDashMap<K, V, S>(dashmap::DashMap<K, V, S>);

/// What a map from authorities to session numbers holds.
pub uninterp spec fn numbers_of(numbers: dashmap::DashMap<String, usize>) -> Map<Seq<char>, usize>;

/// `DashMap::new`: an empty map.
#[verifier::external_body]
fn no_numbers() -> (r: DashMap<String, usize>)
    ensures
        (numbers_of(r) == Map::<Seq<char>, usize>::empty()),
{
    DashMap::new()
}

/// `DashMap::entry`, read: the number under an authority. The map is owned by one pool,
/// which changes it through `&mut` only, so it holds still while it is read.
#[verifier::external_body]
fn find_number(numbers: &DashMap<String, usize>, authority: &str) -> (r: Option<usize>)
    ensures
        match r {
            Some(number) => numbers_of(*numbers).dom().contains(authority@) && numbers_of(
                *numbers,
            )[authority@] == number,
            None => !numbers_of(*numbers).dom().contains(authority@),
        },
{
    match numbers.entry(authority.to_owned()) {
        Entry::Occupied(occupied) => Some(*occupied.get()),
        Entry::Vacant(_) => None,
    }
}

/// `DashMap::insert`: puts a number under an authority, in place of one that was there.
#[verifier::external_body]
fn put_number(numbers: &mut DashMap<String, usize>, authority: String, number: usize)
    ensures
        numbers_of(*final(numbers)) == numbers_of(*old(numbers)).insert(authority@, number),
{
    numbers.insert(authority, number);
}

/// Why a request cannot be routed.
#[derive(Clone, Copy, Debug, PartialEq, Eq, Structural)]
pub enum ServiceError {
    /// The request's URI has no authority.
    MissingAuthority,
}

impl ServiceError {
    /// What to tell a user.
    pub fn message(&self) -> (r: &'static str)
        ensures
            r@ == "URI missing authority"@,
    {
        "URI missing authority"
    }
}

/// How a request gets its session.
#[derive(Debug)]
pub enum Route<'a, S> {
    /// A session to this authority is there.
    Reuse(&'a S),
    /// There is none: one is to be established and stored under this authority.
    Establish(&'a str),
}

/// The session that a pool has for a target, if it has one; `Err` for a target that no
/// session can be for.
pub open spec fn pooled<S>(pool: Map<Seq<char>, S>, target: UriView) -> Result<
    Option<S>,
    ServiceError,
> {
    match target.authority {
        Some(authority) => if pool.dom().contains(authority) {
            Ok(Some(pool[authority]))
        } else {
            Ok(None)
        },
        None => Err(ServiceError::MissingAuthority),
    }
}

/// A session is found by the authority alone: the one that is stored under it where one is,
/// none where none is, and a target without an authority is refused. Targets with one
/// authority share what is found.
pub proof fn law_session_is_found_by_authority<S>(
    pool: Map<Seq<char>, S>,
    target: UriView,
    other: UriView,
)
    ensures
        target.authority is None <==> pooled(pool, target) is Err,
        target.authority is None ==> pooled(pool, target) == Err::<Option<S>, ServiceError>(
            ServiceError::MissingAuthority,
        ),
        target.authority matches Some(authority) ==> {
            &&& pool.dom().contains(authority) ==> pooled(pool, target) == Ok::<
                Option<S>,
                ServiceError,
            >(Some(pool[authority]))
            &&& !pool.dom().contains(authority) ==> pooled(pool, target) == Ok::<
                Option<S>,
                ServiceError,
            >(None)
        },
        target.authority == other.authority ==> pooled(pool, target) == pooled(pool, other),
{
}

/// A session that was stored is found for every target with its authority, until another
/// is stored under the same authority.
pub proof fn law_stored_session_is_found<S>(
    pool: Map<Seq<char>, S>,
    authority: Seq<char>,
    session: S,
    target: UriView,
)
    ensures
        target.authority == Some(authority) ==> pooled(pool.insert(authority, session), target)
            == Ok::<Option<S>, ServiceError>(Some(session)),
        target.authority != Some(authority) ==> pooled(pool.insert(authority, session), target)
            == pooled(pool, target),
{
}

/// The sessions of a pool once others were stored, each under its authority, in order.
pub open spec fn pool_after<S>(pool: Map<Seq<char>, S>, stores: Seq<(Seq<char>, S)>) -> Map<
    Seq<char>,
    S,
>
    decreases stores.len(),
{
    if stores.len() == 0 {
        pool
    } else {
        pool_after(pool, stores.drop_last()).insert(stores.last().0, stores.last().1)
    }
}

/// A session is reused for every request to its authority: storing sessions under other
/// authorities, however many, does not change what is found for it.
pub proof fn law_pooled_session_stays<S>(
    pool: Map<Seq<char>, S>,
    stores: Seq<(Seq<char>, S)>,
    target: UriView,
)
    requires
        forall|i: int| 0 <= i < stores.len() ==> Some((#[trigger] stores[i]).0) != target.authority,
    ensures
        pooled(pool_after(pool, stores), target) == pooled(pool, target),
    decreases stores.len(),
{
    if stores.len() > 0 {
        let rest = stores.drop_last();
        assert forall|i: int| 0 <= i < rest.len() implies Some((#[trigger] rest[i]).0)
            != target.authority by {
            assert(rest[i] == stores[i]);
        }
        law_pooled_session_stays(pool, rest, target);
        assert(stores.last() == stores[stores.len() - 1]);
        law_stored_session_is_found(
            pool_after(pool, rest),
            stores.last().0,
            stores.last().1,
            target,
        );
    }
}

/// The sessions that are stored as requests to these targets are handled one after another,
/// each under its authority: one for every request whose target has none in the pool by then.
/// `fresh` are the sessions that connecting would give, one for each request.
pub open spec fn stores<S>(pool: Map<Seq<char>, S>, targets: Seq<UriView>, fresh: Seq<S>) -> Seq<
    (Seq<char>, S),
>
    decreases targets.len(),
{
    if targets.len() == 0 {
        Seq::empty()
    } else {
        let before = stores(pool, targets.drop_last(), fresh);
        let target = targets.last();
        match (target.authority, pooled(pool_after(pool, before), target)) {
            (Some(authority), Ok(None)) => before.push((authority, fresh[targets.len() - 1])),
            _ => before,
        }
    }
}

/// The authorities of targets.
pub open spec fn authorities(targets: Seq<UriView>) -> Set<Seq<char>>
    decreases targets.len(),
{
    if targets.len() == 0 {
        Set::empty()
    } else {
        match targets.last().authority {
            Some(authority) => authorities(targets.drop_last()).insert(authority),
            None => authorities(targets.drop_last()),
        }
    }
}

/// One session is established for each authority, however many requests go to it, and each
/// request goes through the session that was established for the first request to its
/// authority. Nothing but the authority, as it is written, plays a part.
pub proof fn law_one_session_per_authority<S>(targets: Seq<UriView>, fresh: Seq<S>)
    ensures
        ({
            let stored = stores(Map::empty(), targets, fresh);
            let pool = pool_after(Map::empty(), stored);
            &&& authorities(targets).finite()
            &&& stored.len() == authorities(targets).len()
            &&& pool.dom() == authorities(targets)
            &&& forall|i: int| #[trigger] first_to_its_authority(targets, i) ==> {
                &&& pool.dom().contains(targets[i].authority->0)
                &&& pool[targets[i].authority->0] == fresh[i]
            }
            &&& forall|k: int|
                0 <= k < targets.len() && (#[trigger] targets[k]).authority is Some ==> exists|i: int|
                    {
                        &&& i <= k
                        &&& #[trigger] first_to_its_authority(targets, i)
                        &&& targets[i].authority == targets[k].authority
                        &&& pooled(pool, targets[k]) == Ok::<Option<S>, ServiceError>(
                            Some(fresh[i]),
                        )
                    }
        }),
    decreases targets.len(),
{
    let empty = Map::<Seq<char>, S>::empty();
    if targets.len() == 0 {
        assert(empty.dom() =~= Set::<Seq<char>>::empty());
    } else {
        let init = targets.drop_last();
        let target = targets.last();
        law_one_session_per_authority(init, fresh);
        let before = stores(empty, init, fresh);
        let stored = stores(empty, targets, fresh);
        let pool = pool_after(empty, stored);
        let last = targets.len() - 1;
        if stored != before {
            assert(stored.drop_last() =~= before);
            assert(stored.last() == (target.authority->0, fresh[last]));
        }
        assert(pool.dom() =~= authorities(targets));
        assert forall|i: int| #[trigger] first_to_its_authority(targets, i) implies {
            &&& pool.dom().contains(targets[i].authority->0)
            &&& pool[targets[i].authority->0] == fresh[i]
        } by {
            if i < last {
                assert(init[i] == targets[i]);
                assert(first_to_its_authority(init, i)) by {
                    assert forall|j: int| 0 <= j < i implies (#[trigger] init[j]).authority
                        != init[i].authority by {
                        assert(init[j] == targets[j]);
                    }
                }
            } else {
                lemma_authorities(init, target.authority->0);
                assert forall|j: int| 0 <= j < init.len() implies (#[trigger] init[j]).authority
                    != target.authority by {
                    assert(init[j] == targets[j]);
                }
            }
        }
        assert forall|k: int|
            0 <= k < targets.len() && (#[trigger] targets[k]).authority is Some implies exists|
            i: int,
        |
            {
                &&& i <= k
                &&& #[trigger] first_to_its_authority(targets, i)
                &&& targets[i].authority == targets[k].authority
                &&& pooled(pool, targets[k]) == Ok::<Option<S>, ServiceError>(Some(fresh[i]))
            } by {
            let i = lemma_first_to_its_authority(targets, k);
            assert(first_to_its_authority(targets, i));
        }
    }
}

/// Some request is the first to an authority that a request goes to.
proof fn lemma_first_to_its_authority(targets: Seq<UriView>, k: int) -> (i: int)
    requires
        0 <= k < targets.len(),
        targets[k].authority is Some,
    ensures
        i <= k,
        first_to_its_authority(targets, i),
        targets[i].authority == targets[k].authority,
    decreases k,
{
    if exists|j: int| 0 <= j < k && (#[trigger] targets[j]).authority == targets[k].authority {
        let j = choose|j: int|
            0 <= j < k && (#[trigger] targets[j]).authority == targets[k].authority;
        lemma_first_to_its_authority(targets, j)
    } else {
        k
    }
}

/// Whether a request is the first to its authority.
pub open spec fn first_to_its_authority(targets: Seq<UriView>, i: int) -> bool {
    &&& 0 <= i < targets.len()
    &&& targets[i].authority is Some
    &&& forall|j: int| 0 <= j < i ==> (#[trigger] targets[j]).authority != targets[i].authority
}

/// An authority is among those of some targets only if one of them has it.
proof fn lemma_authorities(targets: Seq<UriView>, authority: Seq<char>)
    ensures
        authorities(targets).contains(authority) ==> exists|j: int|
            0 <= j < targets.len() && (#[trigger] targets[j]).authority == Some(authority),
    decreases targets.len(),
{
    if targets.len() > 0 {
        let init = targets.drop_last();
        lemma_authorities(init, authority);
        if targets.last().authority == Some(authority) {
            assert(targets[targets.len() - 1].authority == Some(authority));
        } else if authorities(targets).contains(authority) {
            let j = choose|j: int|
                0 <= j < init.len() && (#[trigger] init[j]).authority == Some(authority);
            assert(targets[j].authority == Some(authority));
        }
    }
}

/// Sessions, found by the authority they are for.
pub struct SessionPool<S> {
    /// The place of each authority's session.
    numbers: DashMap<String, usize>,
    sessions: Vec<S>,
}

impl<S> View for SessionPool<S> {
    type V = Map<Seq<char>, S>;

    closed spec fn view(&self) -> Map<Seq<char>, S> {
        Map::new(
            |authority: Seq<char>| numbers_of(self.numbers).dom().contains(authority),
            |authority: Seq<char>| self.sessions@[numbers_of(self.numbers)[authority] as int],
        )
    }
}

impl<S> SessionPool<S> {
    /// Every authority has a session of its own.
    pub closed spec fn well_formed(&self) -> bool {
        let numbers = numbers_of(self.numbers);
        &&& forall|authority: Seq<char>| #[trigger]
            numbers.dom().contains(authority) ==> numbers[authority] < self.sessions@.len()
        &&& forall|one: Seq<char>, other: Seq<char>|
            one != other && #[trigger] numbers.dom().contains(one)
                && #[trigger] numbers.dom().contains(other) ==> numbers[one] != numbers[other]
    }

    /// Creates an empty pool.
    pub fn new() -> (r: Self)
        ensures
            r@ == Map::<Seq<char>, S>::empty(),
            r.well_formed(),
    {
        let r = SessionPool { numbers: no_numbers(), sessions: Vec::new() };
        assert(r@ =~= Map::<Seq<char>, S>::empty());
        r
    }

    /// The session of an authority.
    pub fn get(&self, authority: &str) -> (r: Option<&S>)
        requires
            self.well_formed(),
        ensures
            match r {
                Some(session) => self@.dom().contains(authority@) && self@[authority@] == *session,
                None => !self@.dom().contains(authority@),
            },
    {
        match find_number(&self.numbers, authority) {
            Some(number) => Some(&self.sessions[number]),
            None => None,
        }
    }

    /// Stores the session of an authority, in place of the one that was there.
    pub fn insert(&mut self, authority: &str, session: S)
        requires
            old(self).well_formed(),
        ensures
            final(self)@ == old(self)@.insert(authority@, session),
            final(self).well_formed(),
    {
        match find_number(&self.numbers, authority) {
            Some(number) => {
                self.sessions.set(number, session);
            },
            None => {
                let number: usize = self.sessions.len();
                self.sessions.push(session);
                put_number(&mut self.numbers, authority.to_owned(), number);
            },
        }
        assert(self@ =~= old(self)@.insert(authority@, session));
    }
}

/// The service that performs network I/O with session pooling.
pub struct BaseService<T, A, R, S> {
    transport: T,
    app: A,
    runtime: R,
    pool: SessionPool<S>,
}

impl<T, A, R, S> BaseService<T, A, R, S> {
    /// The sessions, under their authorities.
    pub closed spec fn pool(&self) -> Map<Seq<char>, S> {
        self.pool@
    }

    /// The transport, the application plugin and the runtime.
    pub closed spec fn plugged(&self) -> (T, A, R) {
        (self.transport, self.app, self.runtime)
    }

    /// Every authority has a session.
    pub closed spec fn well_formed(&self) -> bool {
        self.pool.well_formed()
    }

    /// Creates a service without sessions.
    pub fn new(transport: T, app: A, runtime: R) -> (r: Self)
        ensures
            r.pool() == Map::<Seq<char>, S>::empty(),
            r.plugged() == (transport, app, runtime),
            r.well_formed(),
    {
        BaseService { transport, app, runtime, pool: SessionPool::new() }
    }

    /// The plugins of the service: its transport, its application and its runtime.
    pub fn plugins(&self) -> (r: (&T, &A, &R))
        ensures
            (*r.0, *r.1, *r.2) == self.plugged(),
    {
        (&self.transport, &self.app, &self.runtime)
    }

    /// Decides how a request to a URI gets its session.
    pub fn route<'a>(&'a self, uri: &'a UriParts) -> (r: Result<Route<'a, S>, ServiceError>)
        requires
            self.well_formed(),
        ensures
            match r {
                Ok(Route::Reuse(session)) => pooled(self.pool(), uri@) == Ok::<
                    Option<S>,
                    ServiceError,
                >(Some(*session)),
                Ok(Route::Establish(authority)) => {
                    &&& pooled(self.pool(), uri@) == Ok::<Option<S>, ServiceError>(None)
                    &&& uri@.authority == Some(authority@)
                },
                Err(error) => pooled(self.pool(), uri@) == Err::<Option<S>, ServiceError>(error),
            },
    {
        match &uri.authority {
            Some(authority) => match self.pool.get(authority.as_str()) {
                Some(session) => Ok(Route::Reuse(session)),
                None => Ok(Route::Establish(authority.as_str())),
            },
            None => Err(ServiceError::MissingAuthority),
        }
    }

    /// Takes the outcome of the work under way for a request to an authority and decides
    /// what comes next. A session that was established is stored on the way; the outcome of
    /// any other work, a failure above all, leaves the pool as it is.
    pub fn advance<K, D, P, E>(
        &mut self,
        authority: &str,
        dispatch: &mut Dispatch,
        outcome: Outcome<K, S, D, P, E>,
    ) -> (r: Action<K, S, D, P, E>) where S: Clone
        requires
            old(self).well_formed(),
            expected(old(dispatch).stage(), outcome),
        ensures
            (final(dispatch).stage(), r) == next_step(outcome),
            match outcome {
                Outcome::Established(session, _) => {
                    let pool = final(self).pool();
                    &&& pool == old(self).pool().insert(authority@, pool[authority@])
                    &&& cloned(session, pool[authority@])
                },
                _ => final(self).pool() == old(self).pool(),
            },
            final(self).plugged() == old(self).plugged(),
            final(self).well_formed(),
    {
        match &outcome {
            Outcome::Established(session, _) => {
                let copy = session.clone();
                self.store(authority, copy);
                assert(self.pool()[authority@] == copy);
            },
            _ => {},
        }
        dispatch.advance(outcome)
    }

    /// Stores a session that was established for an authority.
    pub fn store(&mut self, authority: &str, session: S)
        requires
            old(self).well_formed(),
        ensures
            final(self).pool() == old(self).pool().insert(authority@, session),
            final(self).plugged() == old(self).plugged(),
            final(self).well_formed(),
    {
        self.pool.insert(authority, session);
    }
}

/// A request goes through the session of its authority where one is stored; else one is
/// established, for this authority and no other. Only a target without an authority is
/// refused.
pub proof fn law_request_is_routed<'a, T, A, R, S>(
    service: &'a BaseService<T, A, R, S>,
    uri: &'a UriParts,
    r: Result<Route<'a, S>, ServiceError>,
)
    requires
        service.well_formed(),
        call_ensures(BaseService::<T, A, R, S>::route, (service, uri), r),
    ensures
        uri@.authority is None ==> (r matches Err(error) && error
            == ServiceError::MissingAuthority),
        uri@.authority matches Some(authority) ==> {
            &&& service.pool().dom().contains(authority) ==> (r matches Ok(Route::Reuse(session))
                && *session == service.pool()[authority])
            &&& !service.pool().dom().contains(authority) ==> (r matches Ok(
                Route::Establish(wanted),
            ) && wanted@ == authority)
        },
{
}

/// A session that is stored is there afterwards under its authority, in place of one that was
/// there, and no other session is added, replaced or lost.
pub proof fn law_store_changes_one_authority<T, A, R, S>(
    service: &mut BaseService<T, A, R, S>,
    authority: &str,
    session: S,
    other: Seq<char>,
)
    requires
        call_ensures(BaseService::<T, A, R, S>::store, (service, authority, session), ()),
    ensures
        final(service).pool().dom().contains(authority@),
        final(service).pool()[authority@] == session,
        other != authority@ ==> {
            &&& final(service).pool().dom().contains(other) <==> old(
                service,
            ).pool().dom().contains(other)
            &&& old(service).pool().dom().contains(other) ==> final(service).pool()[other] == old(
                service,
            ).pool()[other]
        },
        final(service).plugged() == old(service).plugged(),
{
}

/// A session that was established is stored, as a clone, under the authority of the request
/// and nowhere else; a failure, and the outcome of any other work, leaves the pool as it is.
/// What comes next is what a dispatch decides.
pub proof fn law_established_session_is_stored<T, A, R, S: Clone, K, D, P, E>(
    service: &mut BaseService<T, A, R, S>,
    authority: &str,
    dispatch: &mut Dispatch,
    outcome: Outcome<K, S, D, P, E>,
    r: Action<K, S, D, P, E>,
    other: Seq<char>,
)
    requires
        call_ensures(
            BaseService::<T, A, R, S>::advance::<K, D, P, E>,
            (service, authority, dispatch, outcome),
            r,
        ),
    ensures
        outcome matches Outcome::Established(session, _) ==> {
            &&& final(service).pool().dom().contains(authority@)
            &&& cloned(session, final(service).pool()[authority@])
        },
        !(outcome is Established) || other != authority@ ==> {
            &&& final(service).pool().dom().contains(other) <==> old(
                service,
            ).pool().dom().contains(other)
            &&& old(service).pool().dom().contains(other) ==> final(service).pool()[other] == old(
                service,
            ).pool()[other]
        },
        final(service).plugged() == old(service).plugged(),
        outcome matches Outcome::Failed(error) ==> r == Action::<K, S, D, P, E>::Fail(error),
        outcome matches Outcome::Responded(response) ==> r == Action::<K, S, D, P, E>::Respond(
            response,
        ),
        outcome matches Outcome::Connected(connection) ==> r == Action::<
            K,
            S,
            D,
            P,
            E,
        >::Handshake(connection),
        outcome matches Outcome::Established(session, driver) ==> r == Action::<
            K,
            S,
            D,
            P,
            E,
        >::Launch(session, driver),
{
}

} // verus!
