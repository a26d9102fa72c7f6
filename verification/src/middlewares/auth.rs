//! Authentication of a request: the identity bundle, the cache of resolved
//! tokens, and the authenticator's decisions.

use std::collections::HashMap;
use vstd::prelude::*;
use vstd::std_specs::hash::spec_keys_iter;
use vstd::std_specs::iter::IteratorSpec;
use vstd::slice::slice_subrange;
use crate::base58::{digit, lemma_encode_shape};
use crate::id::{from_token_spec, lemma_token_round_trip, Id};
use crate::model::{
    copy_permissions, copy_roles, past_expiry, permission_views, role_views, Permission,
    PermissionView, Role, RoleView, Token, User, UserView,
};
use crate::responses::{reason_text, Reason, Unauthorized};

verus! {

broadcast use vstd::std_specs::hash::group_hash_axioms;

/// The identity bundle: a user with the permissions and the roles that the
/// user has been given.
#[derive(Debug)]
pub struct Auth {
    pub user: User,
    pub permissions: Vec<Permission>,
    pub roles: Vec<Role>,
}

/// What an identity bundle holds.
pub struct AuthView {
    pub user: UserView,
    pub permissions: Seq<PermissionView>,
    pub roles: Seq<RoleView>,
}

impl View for Auth {
    type V = AuthView;

    open spec fn view(&self) -> AuthView {
        AuthView {
            user: self.user@,
            permissions: permission_views(self.permissions@),
            roles: role_views(self.roles@),
        }
    }
}

impl Clone for Auth {
    fn clone(&self) -> (copy: Self)
        ensures
            copy@ == self@,
    {
        Auth {
            user: self.user.clone(),
            permissions: copy_permissions(&self.permissions),
            roles: copy_roles(&self.roles),
        }
    }
}

/// How long a resolved token stays in the cache, in milliseconds.
pub const CACHE: u64 = 300000;

/// The cache of resolved tokens: for each token's identifier the time at
/// which the entry expires and the identity bundle.
pub struct Authenticated {
    pub entries: HashMap<u128, (u64, Auth)>,
}

/// The entries of `cache` that have not expired at the time `now`.
pub open spec fn swept(cache: Map<Id, (u64, AuthView)>, now: u64) -> Map<Id, (u64, AuthView)> {
    Map::new(|id: Id| cache.contains_key(id) && !(now > cache[id].0), |id: Id| cache[id])
}

impl View for Authenticated {
    type V = Map<Id, (u64, AuthView)>;

    open spec fn view(&self) -> Map<Id, (u64, AuthView)> {
        Map::new(
            |id: Id| self.entries@.contains_key(id.raw),
            |id: Id| (self.entries@[id.raw].0, self.entries@[id.raw].1@),
        )
    }
}

impl Authenticated {
    /// An empty cache.
    pub fn new() -> (cache: Self)
        ensures
            cache@ == Map::<Id, (u64, AuthView)>::empty(),
    {
        let cache = Authenticated { entries: HashMap::new() };
        assert(cache@ =~= Map::<Id, (u64, AuthView)>::empty());
        cache
    }

    /// The identifiers in the cache, each once.
    fn ids(&self) -> (ids: Vec<u128>)
        ensures
            forall|raw: u128| self.entries@.contains_key(raw) <==> ids@.contains(raw),
            ids@.no_duplicates(),
    {
        let mut ids: Vec<u128> = Vec::new();
        let keys = self.entries.keys();
        let ghost all = spec_keys_iter(&self.entries).remaining().unref();
        for raw in iter: keys
            invariant
                iter.seq().unref() == all,
                ids@ == all.subrange(0, iter.index()),
        {
            ids.push(*raw);
            assert(ids@ =~= all.subrange(0, iter.index() + 1));
        }
        proof {
            assert(ids@ =~= all);
            assert(all.to_set() == self.entries@.dom());
            assert forall|raw: u128| self.entries@.contains_key(raw) <==> ids@.contains(raw) by {
                assert(all.to_set().contains(raw) <==> all.contains(raw));
            }
        }
        ids
    }

    /// Every entry of the cache: identifier, expiry and identity bundle.
    pub fn all(&self) -> (entries: Vec<(Id, u64, Auth)>)
        ensures
            forall|i: int|
                0 <= i < entries@.len() ==> self@.contains_key(#[trigger] entries@[i].0)
                    && self@[entries@[i].0] == (entries@[i].1, entries@[i].2@),
            forall|id: Id|
                self@.contains_key(id) ==> exists|i: int|
                    0 <= i < entries@.len() && (#[trigger] entries@[i]).0 == id,
            forall|i: int, j: int|
                0 <= i < j < entries@.len() ==> (#[trigger] entries@[i]).0 != (
                #[trigger] entries@[j]).0,
    {
        let ids = self.ids();
        let mut entries: Vec<(Id, u64, Auth)> = Vec::new();
        let n: usize = ids.len();
        let mut i: usize = 0;
        while i < n
            invariant
                i <= n,
                n == ids@.len(),
                entries@.len() == i,
                forall|raw: u128| self.entries@.contains_key(raw) <==> ids@.contains(raw),
                forall|k: int|
                    0 <= k < i ==> (#[trigger] entries@[k]).0.raw == ids@[k] && self@.contains_key(
                        entries@[k].0,
                    ) && self@[entries@[k].0] == (entries@[k].1, entries@[k].2@),
            decreases n - i,
        {
            let raw: u128 = ids[i];
            assert(ids@.contains(raw));
            match self.entries.get(&raw) {
                Some(entry) => {
                    entries.push((Id { raw }, entry.0, entry.1.clone()));
                },
                None => {
                    assert(false);
                },
            }
            i += 1;
        }
        assert forall|id: Id| self@.contains_key(id) implies exists|i: int|
            0 <= i < entries@.len() && (#[trigger] entries@[i]).0 == id by {
            assert(ids@.contains(id.raw));
            let k = choose|k: int| 0 <= k < ids@.len() && ids@[k] == id.raw;
            assert(entries@[k].0 == id);
        }
        entries
    }

    /// The entry of `id`, if the cache holds one, expired or not.
    pub fn get(&self, id: &Id) -> (found: Option<(u64, Auth)>)
        ensures
            match found {
                Some(entry) => self@.contains_key(*id) && self@[*id] == (entry.0, entry.1@),
                None => !self@.contains_key(*id),
            },
    {
        match self.entries.get(&id.raw) {
            Some(entry) => Some((entry.0, entry.1.clone())),
            None => None,
        }
    }

    /// Puts `auth` under `id` with the expiry `expired`, in place of any
    /// entry that `id` had, and hands `auth` back.
    pub fn set(&mut self, id: Id, expired: u64, auth: Auth) -> (same: Auth)
        ensures
            final(self)@ == old(self)@.insert(id, (expired, auth@)),
            same@ == auth@,
    {
        let copy = auth.clone();
        self.entries.insert(id.raw, (expired, copy));
        assert(self@ =~= old(self)@.insert(id, (expired, auth@)));
        auth
    }

    /// Takes the entry of `id` out of the cache.
    pub fn remove(&mut self, id: &Id)
        ensures
            final(self)@ == old(self)@.remove(*id),
    {
        self.entries.remove(&id.raw);
        assert(self@ =~= old(self)@.remove(*id));
    }

    /// Takes out every entry that has expired at the time `now`.
    pub fn clear(&mut self, now: u64)
        ensures
            final(self)@ == swept(old(self)@, now),
    {
        let ids = self.ids();
        let n: usize = ids.len();
        let mut i: usize = 0;
        while i < n
            invariant
                i <= n,
                n == ids@.len(),
                forall|raw: u128| old(self).entries@.contains_key(raw) ==> ids@.contains(raw),
                forall|raw: u128|
                    self.entries@.contains_key(raw) <==> old(self).entries@.contains_key(raw) && !(
                    ids@.subrange(0, i as int).contains(raw) && now > old(self).entries@[raw].0),
                forall|raw: u128|
                    self.entries@.contains_key(raw) ==> self.entries@[raw] == old(
                        self,
                    ).entries@[raw],
            decreases n - i,
        {
            let raw: u128 = ids[i];
            let expired = match self.entries.get(&raw) {
                Some(entry) => now > entry.0,
                None => false,
            };
            let ghost before = self.entries@;
            if expired {
                self.entries.remove(&raw);
            }
            i += 1;
            proof {
                let done = ids@.subrange(0, i as int - 1);
                let next = ids@.subrange(0, i as int);
                assert(next =~= done.push(raw));
                assert forall|r: u128| next.contains(r) <==> (done.contains(r) || r == raw) by {
                    if done.contains(r) {
                        let k = choose|k: int| 0 <= k < done.len() && done[k] == r;
                        assert(next[k] == r);
                    }
                    if r == raw {
                        assert(next[i as int - 1] == r);
                    }
                }
            }
        }
        assert(ids@.subrange(0, n as int) =~= ids@);
        assert(self@ =~= swept(old(self)@, now));
    }
}

/// Sweeping a second time, at the same time or at an earlier one, takes
/// nothing more out.
pub proof fn lemma_sweep_idempotent(cache: Map<Id, (u64, AuthView)>, first: u64, second: u64)
    requires
        second <= first,
    ensures
        swept(swept(cache, first), second) == swept(cache, first),
{
    assert(swept(swept(cache, first), second) =~= swept(cache, first));
}

/// After a sweep the cache holds no expired entry, and every entry that it
/// holds it held before, unchanged.
pub proof fn lemma_sweep_keeps_live_entries(cache: Map<Id, (u64, AuthView)>, now: u64, id: Id)
    ensures
        swept(cache, now).contains_key(id) <==> cache.contains_key(id) && cache[id].0 >= now,
        swept(cache, now).contains_key(id) ==> swept(cache, now)[id] == cache[id],
{
}

/// The byte of a space.
pub open spec fn space() -> u8 {
    32
}

/// How many bytes of `s` are spaces.
pub open spec fn spaces(s: Seq<u8>) -> nat
    decreases s.len(),
{
    if s.len() == 0 {
        0
    } else {
        spaces(s.drop_last()) + if s.last() == space() {
            1nat
        } else {
            0nat
        }
    }
}

/// How many bytes stand before the first space of `s`.
pub open spec fn before_space(s: Seq<u8>) -> nat
    decreases s.len(),
{
    if s.len() == 0 || s[0] == space() {
        0
    } else {
        1 + before_space(s.drop_first())
    }
}

/// The byte `b`, in lower case where it is an upper-case ASCII letter.
pub open spec fn lower(b: u8) -> u8 {
    if 65 <= b <= 90 {
        (b + 32) as u8
    } else {
        b
    }
}

/// Whether `scheme` is `bearer`, whatever the case of its letters.
pub open spec fn is_bearer(scheme: Seq<u8>) -> bool {
    scheme.map_values(|b: u8| lower(b)) == seq![98u8, 101u8, 97u8, 114u8, 101u8, 114u8]
}

/// What a header's bytes resolve to: the identifier of the token that the
/// header carries, or why it carries none. A header is a scheme, one space
/// and a token's text.
pub open spec fn parse_spec(header: Seq<u8>) -> Result<Id, Reason> {
    let at = before_space(header) as int;
    if spaces(header) != 1 {
        Err(Reason::Malformed)
    } else if !is_bearer(header.subrange(0, at)) {
        Err(Reason::WrongScheme)
    } else {
        match from_token_spec(header.subrange(at + 1, header.len() as int)) {
            Ok(id) => Ok(id),
            Err(error) => Err(Reason::Undecodable(error)),
        }
    }
}

/// The count of bytes before the first space is fixed by where that
/// space is.
proof fn lemma_before_space_is(s: Seq<u8>, at: nat)
    requires
        at <= s.len(),
        forall|i: int| 0 <= i < at ==> s[i] != space(),
        at < s.len() ==> s[at as int] == space(),
    ensures
        before_space(s) == at,
    decreases s.len(),
{
    if s.len() > 0 && s[0] != space() {
        let rest = s.drop_first();
        assert forall|i: int| 0 <= i < at - 1 implies rest[i] != space() by {
            assert(rest[i] == s[i + 1]);
        }
        if at < s.len() {
            assert(rest[at - 1] == s[at as int]);
        }
        lemma_before_space_is(rest, (at - 1) as nat);
    }
}

/// The header that presents the token of `id`: `Bearer`, a space and the
/// token's text.
pub open spec fn bearer_header(id: Id) -> Seq<u8> {
    seq![66u8, 101u8, 97u8, 114u8, 101u8, 114u8, 32u8] + id.token_spec()
}

/// Two texts in a row have the spaces of both.
proof fn lemma_spaces_concat(a: Seq<u8>, b: Seq<u8>)
    ensures
        spaces(a + b) == spaces(a) + spaces(b),
    decreases b.len(),
{
    if b.len() == 0 {
        assert(a + b =~= a);
    } else {
        assert((a + b).drop_last() =~= a + b.drop_last());
        lemma_spaces_concat(a, b.drop_last());
    }
}

/// A text without a space has no spaces.
proof fn lemma_no_spaces(s: Seq<u8>)
    requires
        forall|i: int| 0 <= i < s.len() ==> s[i] != space(),
    ensures
        spaces(s) == 0,
    decreases s.len(),
{
    if s.len() > 0 {
        lemma_no_spaces(s.drop_last());
    }
}

/// The token that a login hands out, presented as a bearer token, resolves
/// to the identifier that it was made of.
pub proof fn lemma_bearer_header_resolves(id: Id)
    ensures
        parse_spec(bearer_header(id)) == Ok::<Id, Reason>(id),
{
    let scheme = seq![66u8, 101u8, 97u8, 114u8, 101u8, 114u8];
    let head = seq![66u8, 101u8, 97u8, 114u8, 101u8, 114u8, 32u8];
    let token = id.token_spec();
    let header = bearer_header(id);
    lemma_encode_shape(id.bytes());
    assert forall|i: int| 0 <= i < token.len() implies token[i] != space() by {
        assert(digit(token[i]) is Some);
    }
    lemma_no_spaces(token);
    lemma_no_spaces(scheme);
    assert(head =~= scheme + seq![32u8]);
    assert(header =~= head + token);
    let one = seq![32u8];
    assert(one.drop_last() =~= Seq::<u8>::empty());
    assert(one.last() == space());
    assert(spaces(one.drop_last()) == 0);
    assert(spaces(one) == 1);
    lemma_spaces_concat(scheme, one);
    lemma_spaces_concat(head, token);
    lemma_before_space_is(header, 6);
    assert(header.subrange(0, 6) =~= scheme);
    assert(scheme.map_values(|b: u8| lower(b)) =~= seq![98u8, 101u8, 97u8, 114u8, 101u8, 114u8]);
    assert(header.subrange(7, header.len() as int) =~= token);
    lemma_token_round_trip(id);
}

fn lower_of(b: u8) -> (l: u8)
    ensures
        l == lower(b),
{
    if 65 <= b && b <= 90 {
        b + 32
    } else {
        b
    }
}

fn scheme_is_bearer(scheme: &[u8]) -> (yes: bool)
    ensures
        yes == is_bearer(scheme@),
{
    let ghost lowered = scheme@.map_values(|b: u8| lower(b));
    let ghost bearer = seq![98u8, 101u8, 97u8, 114u8, 101u8, 114u8];
    if scheme.len() != 6 {
        assert(lowered.len() != bearer.len());
        return false;
    }
    let yes = lower_of(scheme[0]) == 98 && lower_of(scheme[1]) == 101 && lower_of(scheme[2]) == 97
        && lower_of(scheme[3]) == 114 && lower_of(scheme[4]) == 101 && lower_of(scheme[5]) == 114;
    proof {
        if yes {
            assert(lowered =~= bearer);
        } else {
            assert(lowered[0] == lower(scheme@[0]));
            assert(lowered[1] == lower(scheme@[1]));
            assert(lowered[2] == lower(scheme@[2]));
            assert(lowered[3] == lower(scheme@[3]));
            assert(lowered[4] == lower(scheme@[4]));
            assert(lowered[5] == lower(scheme@[5]));
            assert(bearer[0] == 98 && bearer[1] == 101 && bearer[2] == 97 && bearer[3] == 114
                && bearer[4] == 101 && bearer[5] == 114);
        }
    }
    yes
}

/// What the authenticator does next.
#[derive(Debug)]
pub enum Step {
    /// It is done: the caller is the identity bundle, or is refused.
    Done(Result<Auth, Unauthorized>),
    /// Storage is to look up the token with this identifier, joined to its
    /// user.
    FindToken(Id),
    /// Storage is to list the permissions of the user, for the token with
    /// this identifier.
    FindPermissions(Id, User),
    /// Storage is to list the roles of the user.
    FindRoles(Id, User, Vec<Permission>),
}

/// A bundle put in the cache at the time `now` is what the cache holds for
/// the token at every sweep up to `CACHE` later, and is gone at the first
/// sweep after that.
pub proof fn lemma_cached_bundle_is_served(
    cache: Map<Id, (u64, AuthView)>,
    id: Id,
    bundle: AuthView,
    now: u64,
    later: u64,
)
    ensures
        later <= cache_expiry(now) ==> swept(
            cache.insert(id, (cache_expiry(now), bundle)),
            later,
        ).contains_key(id) && swept(cache.insert(id, (cache_expiry(now), bundle)), later)[id].1
            == bundle,
        later > cache_expiry(now) ==> !swept(
            cache.insert(id, (cache_expiry(now), bundle)),
            later,
        ).contains_key(id),
{
}

impl Step {
    /// The authenticator is done and refuses the caller for `reason`, with
    /// `message`.
    pub open spec fn refuses(self, reason: Reason, message: Seq<char>) -> bool {
        match self {
            Step::Done(Err(refusal)) => refusal.reason == reason && refusal.message@ == message,
            _ => false,
        }
    }

    /// The authenticator is done and the caller is the bundle `bundle`.
    pub open spec fn admits(self, bundle: AuthView) -> bool {
        match self {
            Step::Done(Ok(auth)) => auth@ == bundle,
            _ => false,
        }
    }
}

/// The time at which an entry made at the time `now` expires: `CACHE`
/// later, or at the end of time if that is sooner.
pub open spec fn cache_expiry(now: u64) -> u64 {
    if now as int + CACHE as int > u64::MAX as int {
        u64::MAX
    } else {
        (now + CACHE) as u64
    }
}

impl Auth {
    /// Resolves the header's bytes to the identifier of the token in it.
    pub fn parse(header: &[u8]) -> (parsed: Result<Id, Unauthorized>)
        ensures
            match parse_spec(header@) {
                Ok(id) => parsed == Ok::<Id, Unauthorized>(id),
                Err(reason) => parsed is Err && parsed->Err_0.reason == reason
                    && parsed->Err_0.message@ == reason_text(reason),
            },
    {
        let bytes = header;
        let n: usize = bytes.len();
        let mut count: usize = 0;
        let mut at: usize = n;
        let mut i: usize = 0;
        assert(bytes@.subrange(0, 0) =~= Seq::<u8>::empty());
        while i < n
            invariant
                i <= n,
                n == bytes@.len(),
                count <= i,
                count == spaces(bytes@.subrange(0, i as int)),
                count == 0 ==> at == n,
                count > 0 ==> at < i && bytes@[at as int] == space(),
                forall|k: int| 0 <= k < at && k < i ==> bytes@[k] != space(),
            decreases n - i,
        {
            assert(bytes@.subrange(0, i as int + 1).drop_last() =~= bytes@.subrange(0, i as int));
            if bytes[i] == 32 {
                if count == 0 {
                    at = i;
                }
                count += 1;
            }
            i += 1;
        }
        assert(bytes@.subrange(0, n as int) =~= bytes@);
        if count != 1 {
            return Err(Unauthorized::because(Reason::Malformed));
        }
        proof {
            lemma_before_space_is(bytes@, at as nat);
        }
        if !scheme_is_bearer(slice_subrange(bytes, 0, at)) {
            return Err(Unauthorized::because(Reason::WrongScheme));
        }
        match Id::from_token(slice_subrange(bytes, at + 1, n)) {
            Ok(id) => Ok(id),
            Err(error) => Err(Unauthorized::because(Reason::Undecodable(error))),
        }
    }

    /// Begins to authenticate a request. Without a header, or with one that
    /// carries no token, the caller is refused. Else the cache is swept; if
    /// it then holds the token, the caller is the bundle in the cache, and
    /// if not, storage is to look the token up.
    pub fn authenticate(cache: &mut Authenticated, header: Option<&[u8]>, now: u64) -> (step:
        Step)
        ensures
            match header {
                None => final(cache)@ == old(cache)@ && step.refuses(
                    Reason::Missing,
                    "token not found"@,
                ),
                Some(text) => match parse_spec(text@) {
                    Err(reason) => final(cache)@ == old(cache)@ && step.refuses(
                        reason,
                        reason_text(reason),
                    ),
                    Ok(id) => {
                        &&& final(cache)@ == swept(old(cache)@, now)
                        &&& if swept(old(cache)@, now).contains_key(id) {
                            step.admits(old(cache)@[id].1)
                        } else {
                            step == Step::FindToken(id)
                        }
                    },
                },
            },
    {
        let text = match header {
            Some(text) => text,
            None => {
                return Step::Done(Err(Unauthorized::because(Reason::Missing)));
            },
        };
        let id = match Auth::parse(text) {
            Ok(id) => id,
            Err(refusal) => {
                return Step::Done(Err(refusal));
            },
        };
        cache.clear(now);
        match cache.get(&id) {
            Some(entry) => Step::Done(Ok(entry.1)),
            None => Step::FindToken(id),
        }
    }

    /// Goes on when storage has looked the token up. The caller is refused
    /// where storage failed, where it holds no such token, where the token
    /// has expired at the time `now`, and where the token's user is deleted
    /// or missing. Else storage is to list the user's permissions.
    pub fn token_found(
        id: Id,
        found: Result<Option<(Token, Option<User>)>, String>,
        now: u64,
    ) -> (step: Step)
        ensures
            match found {
                Err(message) => step.refuses(Reason::Storage, message@),
                Ok(None) => step.refuses(Reason::Unknown, "token not found"@),
                Ok(Some((token, owner))) => if past_expiry(token.expired_at, now) || owner is None
                    || owner->0.deleted_at is Some {
                    step.refuses(Reason::Unknown, "token not found"@)
                } else {
                    step == Step::FindPermissions(id, owner->0)
                },
            },
    {
        match found {
            Err(message) => Step::Done(Err(Unauthorized::storage(message))),
            Ok(None) => Step::Done(Err(Unauthorized::because(Reason::Unknown))),
            Ok(Some((token, owner))) => {
                if token.is_expired(now) {
                    return Step::Done(Err(Unauthorized::because(Reason::Unknown)));
                }
                match owner {
                    None => Step::Done(Err(Unauthorized::because(Reason::Unknown))),
                    Some(user) => {
                        if user.is_deleted() {
                            Step::Done(Err(Unauthorized::because(Reason::Unknown)))
                        } else {
                            Step::FindPermissions(id, user)
                        }
                    },
                }
            },
        }
    }

    /// Goes on when storage has listed the user's permissions: the caller
    /// is refused where storage failed, else storage is to list the user's
    /// roles.
    pub fn permissions_found(id: Id, user: User, found: Result<Vec<Permission>, String>) -> (step:
        Step)
        ensures
            match found {
                Err(message) => step.refuses(Reason::Storage, message@),
                Ok(permissions) => step == Step::FindRoles(id, user, permissions),
            },
    {
        match found {
            Err(message) => Step::Done(Err(Unauthorized::storage(message))),
            Ok(permissions) => Step::FindRoles(id, user, permissions),
        }
    }

    /// Ends when storage has listed the user's roles: the caller is refused
    /// where storage failed, and the cache is then left as it is. Else the
    /// bundle is put in the cache, to expire `CACHE` after `now`, and the
    /// caller is the bundle.
    pub fn roles_found(
        cache: &mut Authenticated,
        id: Id,
        user: User,
        permissions: Vec<Permission>,
        found: Result<Vec<Role>, String>,
        now: u64,
    ) -> (outcome: Result<Auth, Unauthorized>)
        ensures
            match found {
                Err(message) => final(cache)@ == old(cache)@ && outcome is Err
                    && outcome->Err_0.reason == Reason::Storage && outcome->Err_0.message@
                    == message@,
                Ok(roles) => {
                    let bundle = (Auth { user, permissions, roles })@;
                    &&& outcome is Ok
                    &&& outcome->Ok_0@ == bundle
                    &&& final(cache)@ == old(cache)@.insert(id, (cache_expiry(now), bundle))
                },
            },
    {
        match found {
            Err(message) => Err(Unauthorized::storage(message)),
            Ok(roles) => {
                let expired: u64 = if now > u64::MAX - CACHE {
                    u64::MAX
                } else {
                    now + CACHE
                };
                Ok(cache.set(id, expired, Auth { user, permissions, roles }))
            },
        }
    }
}

} // verus!
