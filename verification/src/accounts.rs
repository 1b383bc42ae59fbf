//! Operator accounts: who may sign in, what a token claims, and the rules
//! under which accounts are created, changed and removed.
use crate::error::{EventKind, Reply};
use crate::registry::{Registry, User, UserRole};
use crate::text::texts;
use vstd::prelude::*;

verus! {

/// Lifetime of an access token, in seconds.
pub const ACCESS_TOKEN_TTL_S: i64 = 1_800;

/// Lifetime of a refresh token, in seconds.
pub const REFRESH_TOKEN_TTL_S: i64 = 259_200;

/// Least number of bytes of a password.
pub const PASSWORD_MIN_BYTES: usize = 8;

/// Whether bcrypt accepts `password` for the hash string `hash`: the value
/// of `pwhash::bcrypt::verify` on the two texts.
pub uninterp spec fn bcrypt_accepts(password: Seq<char>, hash: Seq<char>) -> bool;

/// Whether every character of a hash string lies between the space and
/// U+007F, both included.
pub open spec fn is_plain(hash: Seq<char>) -> bool {
    forall|i: int|
        0 <= i < hash.len() ==> 0x20 <= (#[trigger] hash[i]) as u32 && hash[i] as u32 <= 0x7F
}

/// Calls `pwhash::bcrypt::verify`, which hashes the password with the
/// variant, cost and salt that the hash string names and compares the
/// result with the hash string; a hash string that does not parse is
/// rejected. The result depends on the two texts alone. Hash strings with
/// a character below the space or above U+007F are left out: the decoder
/// of the salt subtracts 0x20 from each character and looks the difference
/// up in a table of 96 entries, after turning away only those above 0x60.
#[verifier::external_body]
fn bcrypt_verify(password: &String, hash: &String) -> (r: bool)
    requires
        is_plain(hash@),
    ensures
        r == bcrypt_accepts(password@, hash@),
{
    pwhash::bcrypt::verify(password.as_str(), hash.as_str())
}

/// Calls `pwhash::bcrypt::hash`, which hashes the password under a salt
/// drawn at random, and hands back the hash string, or nothing where the
/// call failed. Which text comes back is open. Whatever it is, it is made
/// of `$2b$10$` and 53 characters of the bcrypt alphabet, and
/// `pwhash::bcrypt::verify` accepts the password for it: verification
/// hashes the password again under the salt that the text names and
/// compares.
#[verifier::external_body]
pub(crate) fn bcrypt_hash(password: &String) -> (r: Option<String>)
    ensures
        r matches Some(h) ==> is_plain(h@) && bcrypt_accepts(password@, h@),
{
    pwhash::bcrypt::hash(password.as_str()).ok()
}

fn plain(hash: &String) -> (r: bool)
    ensures
        r == is_plain(hash@),
{
    let n = hash.as_str().unicode_len();
    let mut i: usize = 0;
    while i < n
        invariant
            i <= n,
            n == hash@.len(),
            forall|j: int|
                0 <= j < i ==> 0x20 <= (#[trigger] hash@[j]) as u32 && hash@[j] as u32 <= 0x7F,
        decreases n - i,
    {
        let c = hash.as_str().get_char(i) as u32;
        if c < 0x20 || c > 0x7F {
            return false;
        }
        i += 1;
    }
    true
}

/// Whether a sign-in with `password` is let through against the stored
/// hash string `hash`.
pub open spec fn password_fits(password: Seq<char>, hash: Seq<char>) -> bool {
    is_plain(hash) && bcrypt_accepts(password, hash)
}

/// Whether `password` is the one that the stored hash string stands for. A
/// hash string with a character below the space or above U+007F stands for
/// no password.
pub fn password_matches(password: &String, hash: &String) -> (r: bool)
    ensures
        r == password_fits(password@, hash@),
{
    if !plain(hash) {
        return false;
    }
    bcrypt_verify(password, hash)
}

/// What a token claims.
#[derive(Debug, PartialEq, Eq)]
pub struct UserClaim {
    pub aud: String,
    pub exp: i64,
    pub iss: String,
    pub sub: String,
}

/// Who stands behind a request, as its bearer token says.
#[derive(Debug, PartialEq, Eq)]
pub struct UserAuthenticationData {
    pub id: String,
    pub role: UserRole,
    pub token: String,
}

/// What a sign-in carries.
#[derive(Debug, PartialEq, Eq)]
pub struct UserCredential {
    pub number: String,
    pub password: String,
}

/// What a request for a new pair of tokens carries.
#[derive(Debug, PartialEq, Eq)]
pub struct UserRefreshRequest {
    pub rtk: String,
}

/// What a request to create or change an account carries.
#[derive(Debug, PartialEq, Eq)]
pub struct UserRequest {
    pub cluster_id: Vec<String>,
    pub number: String,
    pub name: String,
    pub password: String,
    pub role: UserRole,
}

/// An account as the API shows it: everything but the password.
#[derive(Debug, PartialEq, Eq)]
pub struct UserResponse {
    pub id: String,
    pub cluster_id: Vec<String>,
    pub number: String,
    pub name: String,
    pub role: UserRole,
}

/// Mathematical value of a [`UserResponse`].
pub ghost struct UserResponseView {
    pub id: Seq<char>,
    pub cluster_id: Seq<Seq<char>>,
    pub number: Seq<char>,
    pub name: Seq<char>,
    pub role: UserRole,
}

impl View for UserResponse {
    type V = UserResponseView;

    open spec fn view(&self) -> UserResponseView {
        UserResponseView {
            id: self.id@,
            cluster_id: texts(self.cluster_id@),
            number: self.number@,
            name: self.name@,
            role: self.role,
        }
    }
}

/// An account as the API shows it.
pub open spec fn shown(user: User) -> UserResponseView {
    UserResponseView {
        id: user.id@,
        cluster_id: texts(user.cluster_id@),
        number: user.number@,
        name: user.name@,
        role: user.role,
    }
}

fn copy_texts(v: &Vec<String>) -> (r: Vec<String>)
    ensures
        texts(r@) == texts(v@),
{
    let mut r: Vec<String> = Vec::new();
    let mut i: usize = 0;
    while i < v.len()
        invariant
            i <= v.len(),
            r@.len() == i,
            forall|j: int| 0 <= j < i ==> (#[trigger] r@[j])@ == v@[j]@,
        decreases v.len() - i,
    {
        r.push(v[i].clone());
        i += 1;
    }
    assert(texts(r@) =~= texts(v@));
    r
}

/// The account as the API shows it.
pub fn respond(user: &User) -> (r: UserResponse)
    ensures
        r@ == shown(*user),
{
    UserResponse {
        id: user.id.clone(),
        cluster_id: copy_texts(&user.cluster_id),
        number: user.number.clone(),
        name: user.name.clone(),
        role: user.role,
    }
}

/// The token that an `Authorization` header carries: what follows its
/// first seven bytes, where anything follows them.
pub fn bearer_token(header: &Vec<u8>) -> (r: Option<Vec<u8>>)
    ensures
        match r {
            Some(token) => header@.len() > 7 && token@ == header@.subrange(
                7,
                header@.len() as int,
            ),
            None => header@.len() <= 7,
        },
{
    if header.len() <= 7 {
        return None;
    }
    let mut token: Vec<u8> = Vec::new();
    let mut i: usize = 7;
    while i < header.len()
        invariant
            7 <= i <= header.len(),
            token@ == header@.subrange(7, i as int),
        decreases header.len() - i,
    {
        token.push(header[i]);
        assert(token@ =~= header@.subrange(7, i as int + 1));
        i += 1;
    }
    Some(token)
}

/// The claim of a token for user `user`, issued at `now` (in seconds) for
/// `audience`, that lives `ttl` seconds.
pub fn claim(user: &String, audience: &String, now: i64, ttl: i64) -> (r: UserClaim)
    requires
        0 <= ttl,
        now <= i64::MAX - ttl,
    ensures
        r.sub@ == user@,
        r.aud@ == audience@,
        r.iss@ == "Redian"@,
        r.exp == now + ttl,
{
    UserClaim {
        aud: audience.clone(),
        exp: now + ttl,
        iss: String::from_str("Redian"),
        sub: user.clone(),
    }
}

/// The claims of the pair of tokens that a sign-in or a refresh at `now`
/// (in seconds) issues: access first, then refresh.
pub fn claims(user: &String, audience: &String, now: i64) -> (r: (UserClaim, UserClaim))
    requires
        now <= i64::MAX - REFRESH_TOKEN_TTL_S,
    ensures
        r.0.sub@ == user@ && r.0.aud@ == audience@ && r.0.iss@ == "Redian"@,
        r.1.sub@ == user@ && r.1.aud@ == audience@ && r.1.iss@ == "Redian"@,
        r.0.exp == now + ACCESS_TOKEN_TTL_S,
        r.1.exp == now + REFRESH_TOKEN_TTL_S,
{
    (
        claim(user, audience, now, ACCESS_TOKEN_TTL_S),
        claim(user, audience, now, REFRESH_TOKEN_TTL_S),
    )
}

/// Position of the first account among `users` that has the given number.
pub open spec fn first_with_number(users: Seq<User>, number: Seq<char>) -> Option<int>
    decreases users.len(),
{
    if users.len() == 0 {
        None
    } else {
        match first_with_number(users.drop_last(), number) {
            Some(i) => Some(i),
            None => if users.last().number@ == number {
                Some(users.len() - 1)
            } else {
                None
            },
        }
    }
}

/// Whether the account stored under `id` is the one that a sign-in with
/// `number` reaches: the first with that number.
pub open spec fn is_first_with_number(reg: Registry, number: Seq<char>, id: Seq<char>) -> bool {
    &&& reg.user@.contains_key(id)
    &&& first_with_number(reg.user.values(), number) matches Some(i)
    &&& 0 <= i < reg.user.values().len()
    &&& reg.user.values()[i] == reg.user@[id]
}

/// Whether some account among `users` is a super admin.
pub open spec fn has_super_admin(users: Seq<User>) -> bool {
    exists|i: int| 0 <= i < users.len() && (#[trigger] users[i]).role == UserRole::SuperAdmin
}

/// Position of the first account with the given number, if there is one.
pub fn find_by_number(reg: &Registry, number: &String) -> (r: Option<usize>)
    requires
        reg.wf(),
    ensures
        match r {
            Some(i) => first_with_number(reg.user.values(), number@) == Some(i as int) && i
                < reg.user.values().len() && reg.user.values()[i as int].number@ == number@,
            None => first_with_number(reg.user.values(), number@).is_none(),
        },
{
    let n = reg.user.len();
    let mut i: usize = 0;
    assert(reg.user.values().take(0) =~= Seq::<User>::empty());
    while i < n
        invariant
            reg.wf(),
            n == reg.user.keys().len(),
            i <= n,
            first_with_number(reg.user.values().take(i as int), number@).is_none(),
        decreases n - i,
    {
        let found = reg.user.value_at(i).number == *number;
        proof {
            let next = reg.user.values().take(i as int + 1);
            assert(next.drop_last() =~= reg.user.values().take(i as int));
            assert(next.last() == reg.user.values()[i as int]);
        }
        if found {
            proof {
                lemma_first_is_stable(reg.user.values(), number@, i as int + 1);
            }
            return Some(i);
        }
        i += 1;
    }
    assert(reg.user.values().take(n as int) =~= reg.user.values());
    None
}

/// An account found among the first `n` stays the first when more follow.
pub proof fn lemma_first_is_stable(users: Seq<User>, number: Seq<char>, n: int)
    requires
        0 <= n <= users.len(),
        first_with_number(users.take(n), number).is_some(),
    ensures
        first_with_number(users, number) == first_with_number(users.take(n), number),
    decreases users.len() - n,
{
    if n < users.len() {
        assert(users.take(n + 1).drop_last() =~= users.take(n));
        lemma_first_is_stable(users, number, n + 1);
    } else {
        assert(users.take(n) =~= users);
    }
}

/// Whether some account is a super admin.
pub fn super_admin_available(reg: &Registry) -> (r: bool)
    requires
        reg.wf(),
    ensures
        r == has_super_admin(reg.user.values()),
{
    let n = reg.user.len();
    let mut i: usize = 0;
    while i < n
        invariant
            reg.wf(),
            n == reg.user.keys().len(),
            i <= n,
            forall|j: int|
                0 <= j < i ==> (#[trigger] reg.user.values()[j]).role != UserRole::SuperAdmin,
        decreases n - i,
    {
        match reg.user.value_at(i).role {
            UserRole::SuperAdmin => {
                return true;
            },
            _ => {},
        }
        i += 1;
    }
    false
}

/// How a sign-in with `number` and `password` ends: `NotFound` where no
/// account has the number, `InvalidCombination` where the password does not
/// fit the first account with the number, and that account otherwise.
pub open spec fn sign_in(users: Seq<User>, number: Seq<char>, password: Seq<char>) -> Result<
    UserResponseView,
    EventKind,
> {
    match first_with_number(users, number) {
        None => Err(EventKind::NotFound),
        Some(i) => if password_fits(password, users[i].password@) {
            Ok(shown(users[i]))
        } else {
            Err(EventKind::InvalidCombination)
        },
    }
}

impl UserCredential {
    /// Signs in. The answer is `NotFound` where no account has the number,
    /// `InvalidCombination` where the first account with the number has
    /// another password, and that account otherwise.
    pub fn authenticate(&self, reg: &Registry) -> (r: Result<UserResponse, EventKind>)
        requires
            reg.wf(),
        ensures
            match sign_in(reg.user.values(), self.number@, self.password@) {
                Ok(user) => r matches Ok(shown_user) && shown_user@ == user,
                Err(e) => r == Err::<UserResponse, EventKind>(e),
            },
    {
        match find_by_number(reg, &self.number) {
            Some(i) => {
                let user = reg.user.value_at(i);
                if password_matches(&self.password, &user.password) {
                    Ok(respond(user))
                } else {
                    Err(EventKind::InvalidCombination)
                }
            },
            None => Err(EventKind::NotFound),
        }
    }
}

/// Whether the bearer of `issuer` may change the account `target`: an
/// officer may change no account but its own.
pub open spec fn may_change(issuer: UserAuthenticationData, target: Seq<char>) -> bool {
    issuer.id@ == target || issuer.role != UserRole::Officer
}

/// Whether the bearer of `issuer` may change the account `target`.
pub fn can_change(issuer: &UserAuthenticationData, target: &String) -> (r: bool)
    ensures
        r == may_change(*issuer, target@),
{
    if issuer.id == *target {
        return true;
    }
    match issuer.role {
        UserRole::Officer => false,
        _ => true,
    }
}

/// Whether a password is long enough to be set.
pub open spec fn is_long_enough(password: Seq<char>) -> bool {
    vstd::utf8::encode_utf8(password).len() >= PASSWORD_MIN_BYTES
}

/// Whether a password is long enough to be set: at least
/// [`PASSWORD_MIN_BYTES`] bytes.
pub fn long_enough(password: &String) -> (r: bool)
    ensures
        r == is_long_enough(password@),
{
    let bytes = password.as_str().as_bytes();
    bytes.len() >= PASSWORD_MIN_BYTES
}

/// Status and body code with which the creation of an account is refused,
/// if it is refused: a short password first, then a second super admin,
/// then a number that is taken.
pub open spec fn creation_refusal(reg: Registry, request: UserRequest) -> Option<(u16, Seq<char>)> {
    if !is_long_enough(request.password@) {
        Some((400u16, "USER_MUST_HAVE_VALID_PASSWORD"@))
    } else if request.role == UserRole::SuperAdmin && has_super_admin(reg.user.values()) {
        Some((400u16, "USER_ROLE_INVALID"@))
    } else if first_with_number(reg.user.values(), request.number@).is_some() {
        Some((400u16, "USER_ALREADY_EXIST"@))
    } else {
        None
    }
}

/// Judges a request to create an account against the rules.
pub fn check_creation(reg: &Registry, request: &UserRequest) -> (r: Option<Reply>)
    requires
        reg.wf(),
    ensures
        match r {
            Some(reply) => creation_refusal(*reg, *request) == Some((reply.status, reply.body@)),
            None => creation_refusal(*reg, *request).is_none(),
        },
{
    if !long_enough(&request.password) {
        return Some(
            Reply { status: 400, body: String::from_str("USER_MUST_HAVE_VALID_PASSWORD") },
        );
    }
    let wants_admin = match request.role {
        UserRole::SuperAdmin => true,
        _ => false,
    };
    if wants_admin && super_admin_available(reg) {
        return Some(Reply { status: 400, body: String::from_str("USER_ROLE_INVALID") });
    }
    if find_by_number(reg, &request.number).is_some() {
        return Some(Reply { status: 400, body: String::from_str("USER_ALREADY_EXIST") });
    }
    None
}

/// The clusters of a new account: those that the request names, followed
/// by every cluster of the store.
pub open spec fn initial_clusters(reg: Registry, request: UserRequest) -> Seq<Seq<char>> {
    texts(request.cluster_id@) + reg.cluster.keys()
}

/// Files the account that `request` asks for under the identifier `id`,
/// with `hash` as its stored password. The request is refused as
/// [`creation_refusal`] says. Where the password could not be hashed, or
/// the identifier is taken, the answer is 500 and nothing is stored. The
/// new account belongs to the clusters that the request names and to every
/// cluster of the store.
pub fn file_user(reg: &mut Registry, request: UserRequest, id: String, hash: Option<String>) -> (r:
    Result<UserResponse, Reply>)
    requires
        old(reg).wf(),
    ensures
        final(reg).wf(),
        final(reg).cluster == old(reg).cluster,
        final(reg).uniform == old(reg).uniform,
        final(reg).processor == old(reg).processor,
        final(reg).camera == old(reg).camera,
        final(reg).evidence == old(reg).evidence,
        final(reg).subscriber == old(reg).subscriber,
        match creation_refusal(*old(reg), request) {
            Some(refused) => r matches Err(reply) && (reply.status, reply.body@) == refused
                && *final(reg) == *old(reg),
            None => if hash.is_none() || old(reg).user@.contains_key(id@) {
                r matches Err(reply) && reply.status == 500 && reply.body@
                    == "USER_SAVING_FAILED"@ && *final(reg) == *old(reg)
            } else {
                &&& r matches Ok(created) && created@ == (UserResponseView {
                    id: id@,
                    cluster_id: initial_clusters(*old(reg), request),
                    number: request.number@,
                    name: request.name@,
                    role: request.role,
                })
                &&& final(reg).user@.contains_key(id@)
                &&& final(reg).user@.remove(id@) == old(reg).user@
                &&& shown(final(reg).user@[id@]) == (UserResponseView {
                    id: id@,
                    cluster_id: initial_clusters(*old(reg), request),
                    number: request.number@,
                    name: request.name@,
                    role: request.role,
                })
                &&& final(reg).user@[id@].password == hash.unwrap()
                &&& is_first_with_number(*final(reg), request.number@, id@)
            },
        },
{
    match check_creation(reg, &request) {
        Some(reply) => {
            return Err(reply);
        },
        None => {},
    }
    let password = match hash {
        Some(h) => h,
        None => {
            return Err(Reply { status: 500, body: String::from_str("USER_SAVING_FAILED") });
        },
    };
    if reg.user.contains(&id) {
        return Err(Reply { status: 500, body: String::from_str("USER_SAVING_FAILED") });
    }
    let mut clusters = request.cluster_id;
    let n = reg.cluster.len();
    let mut i: usize = 0;
    let ghost named = texts(clusters@);
    assert(texts(clusters@) =~= named + reg.cluster.keys().take(0));
    while i < n
        invariant
            reg.wf(),
            n == reg.cluster.keys().len(),
            i <= n,
            texts(clusters@) == named + reg.cluster.keys().take(i as int),
        decreases n - i,
    {
        let ghost prev = clusters@;
        clusters.push(reg.cluster.key_at(i).clone());
        assert(texts(clusters@) =~= texts(prev).push(reg.cluster.keys()[i as int]));
        assert(texts(clusters@) =~= named + reg.cluster.keys().take(i as int + 1));
        i += 1;
    }
    assert(reg.cluster.keys().take(n as int) =~= reg.cluster.keys());
    let user = User {
        id: id.clone(),
        cluster_id: clusters,
        number: request.number,
        name: request.name,
        password,
        role: request.role,
    };
    let created = respond(&user);
    let ghost before = reg.user@;
    let ghost rows = reg.user.values();
    reg.user.insert(id, user);
    assert(reg.user@.remove(id@) =~= before);
    assert(reg.user.values().drop_last() =~= rows);
    Ok(created)
}

/// Creates the account that `request` asks for under the identifier `id`,
/// hashing its password: the requested password fits the one that is
/// stored, and a sign-in with the requested number reaches the new account.
/// What the answer and the store look like for each outcome of the hashing
/// is what [`file_user`] states.
pub fn create_user(reg: &mut Registry, request: UserRequest, id: String) -> (r: Result<
    UserResponse,
    Reply,
>)
    requires
        old(reg).wf(),
    ensures
        final(reg).wf(),
        final(reg).cluster == old(reg).cluster,
        final(reg).uniform == old(reg).uniform,
        final(reg).processor == old(reg).processor,
        final(reg).camera == old(reg).camera,
        final(reg).evidence == old(reg).evidence,
        final(reg).subscriber == old(reg).subscriber,
        creation_refusal(*old(reg), request) matches Some(refused) ==> (r matches Err(reply) && (
            reply.status,
            reply.body@,
        ) == refused) && *final(reg) == *old(reg),
        r.is_err() ==> *final(reg) == *old(reg),
        r matches Ok(created) ==> creation_refusal(*old(reg), request).is_none()
            && !old(reg).user@.contains_key(id@) && final(reg).user@.contains_key(id@)
            && final(reg).user@.remove(id@) == old(reg).user@ && created@ == shown(
            final(reg).user@[id@],
        ) && created@ == (UserResponseView {
            id: id@,
            cluster_id: initial_clusters(*old(reg), request),
            number: request.number@,
            name: request.name@,
            role: request.role,
        }) && password_fits(request.password@, final(reg).user@[id@].password@)
            && is_first_with_number(*final(reg), request.number@, id@),
{
    let hash = bcrypt_hash(&request.password);
    file_user(reg, request, id, hash)
}

/// An account that a sign-in with its number reaches lets in whoever gives
/// a password that fits the one stored, and nobody else. So an account that
/// was just created, which [`create_user`] files as the first with its
/// number and under a hash that its password fits, signs in with that
/// password.
pub proof fn law_fitting_password_signs_in(
    reg: Registry,
    number: Seq<char>,
    id: Seq<char>,
    password: Seq<char>,
)
    requires
        is_first_with_number(reg, number, id),
    ensures
        password_fits(password, reg.user@[id].password@) ==> sign_in(
            reg.user.values(),
            number,
            password,
        ) == Ok::<UserResponseView, EventKind>(shown(reg.user@[id])),
        !password_fits(password, reg.user@[id].password@) ==> sign_in(
            reg.user.values(),
            number,
            password,
        ) == Err::<UserResponseView, EventKind>(EventKind::InvalidCombination),
{
}

/// Status and body code with which the removal of an account is refused,
/// if it is refused.
pub open spec fn removal_refusal(reg: Registry, id: Seq<char>) -> Option<(u16, Seq<char>)> {
    if !reg.user@.contains_key(id) {
        Some((404u16, "ID MEMBER TIDAK TERDAFTAR"@))
    } else if reg.user@[id].role == UserRole::SuperAdmin {
        Some((400u16, "USER_OWNER_CANNOT_BE_DELETED"@))
    } else {
        None
    }
}

/// Removes the account `id`. An unknown account and a super admin are
/// refused; every other account is removed and the answer is 204.
pub fn delete_user(reg: &mut Registry, id: &String) -> (r: Reply)
    requires
        old(reg).wf(),
    ensures
        final(reg).wf(),
        final(reg).cluster == old(reg).cluster,
        final(reg).uniform == old(reg).uniform,
        final(reg).processor == old(reg).processor,
        final(reg).camera == old(reg).camera,
        final(reg).evidence == old(reg).evidence,
        final(reg).subscriber == old(reg).subscriber,
        match removal_refusal(*old(reg), id@) {
            Some(refused) => (r.status, r.body@) == refused && *final(reg) == *old(reg),
            None => r.status == 204 && r.body@.len() == 0 && final(reg).user@ == old(reg).user@.remove(id@),
        },
{
    let admin = match reg.user.get(id) {
        Some(user) => match user.role {
            UserRole::SuperAdmin => true,
            _ => false,
        },
        None => {
            return Reply { status: 404, body: String::from_str("ID MEMBER TIDAK TERDAFTAR") };
        },
    };
    if admin {
        return Reply { status: 400, body: String::from_str("USER_OWNER_CANNOT_BE_DELETED") };
    }
    let _ = reg.user.remove(id);
    Reply { status: 204, body: String::new() }
}

/// Status and body code with which a change of the account `id` is
/// refused, if it is refused: a request without a bearer first, then an
/// officer who reaches for another account, then an unknown account, then
/// a rise to super admin.
pub open spec fn change_refusal(
    reg: Registry,
    issuer: Option<UserAuthenticationData>,
    id: Seq<char>,
    request: UserRequest,
) -> Option<(u16, Seq<char>)> {
    if issuer.is_none() || !may_change(issuer.unwrap(), id) {
        Some((401u16, "UNAUTHORIZED"@))
    } else if !reg.user@.contains_key(id) {
        Some((404u16, "USER_NOT_FOUND"@))
    } else if request.role == UserRole::SuperAdmin && reg.user@[id].role != UserRole::SuperAdmin {
        Some((400u16, "USER_ROLE_INVALID"@))
    } else {
        None
    }
}

/// Changes the account `id` as `request` asks, with `hash` as the hash of
/// the requested password where hashing worked. Role, name, number and
/// clusters are taken from the request. The stored password is replaced by
/// `hash` where the requested password is long enough and was hashed, and
/// stays otherwise.
pub fn apply_user_change(
    reg: &mut Registry,
    issuer: &Option<UserAuthenticationData>,
    id: &String,
    request: UserRequest,
    hash: Option<String>,
) -> (r: Result<UserResponse, Reply>)
    requires
        old(reg).wf(),
    ensures
        final(reg).wf(),
        final(reg).cluster == old(reg).cluster,
        final(reg).uniform == old(reg).uniform,
        final(reg).processor == old(reg).processor,
        final(reg).camera == old(reg).camera,
        final(reg).evidence == old(reg).evidence,
        final(reg).subscriber == old(reg).subscriber,
        match change_refusal(*old(reg), *issuer, id@, request) {
            Some(refused) => r matches Err(reply) && (reply.status, reply.body@) == refused
                && *final(reg) == *old(reg),
            None => {
                &&& r matches Ok(changed) && changed@ == (UserResponseView {
                    id: id@,
                    cluster_id: texts(request.cluster_id@),
                    number: request.number@,
                    name: request.name@,
                    role: request.role,
                })
                &&& final(reg).user@.contains_key(id@)
                &&& final(reg).user@.remove(id@) == old(reg).user@.remove(id@)
                &&& shown(final(reg).user@[id@]) == (UserResponseView {
                    id: id@,
                    cluster_id: texts(request.cluster_id@),
                    number: request.number@,
                    name: request.name@,
                    role: request.role,
                })
                &&& final(reg).user@[id@].password == (if is_long_enough(request.password@)
                    && hash.is_some() {
                    hash.unwrap()
                } else {
                    old(reg).user@[id@].password
                })
            },
        },
{
    let allowed = match issuer {
        Some(who) => can_change(who, id),
        None => false,
    };
    if !allowed {
        return Err(Reply { status: 401, body: String::from_str("UNAUTHORIZED") });
    }
    let i = match reg.user.position(id) {
        Some(i) => i,
        None => {
            return Err(Reply { status: 404, body: String::from_str("USER_NOT_FOUND") });
        },
    };
    proof {
        reg.user.lemma_entry(i as int);
    }
    let stored = reg.user.value_at(i);
    let rises = match request.role {
        UserRole::SuperAdmin => match stored.role {
            UserRole::SuperAdmin => false,
            _ => true,
        },
        _ => false,
    };
    if rises {
        return Err(Reply { status: 400, body: String::from_str("USER_ROLE_INVALID") });
    }
    let replace = long_enough(&request.password);
    let password = match hash {
        Some(h) => if replace {
            h
        } else {
            stored.password.clone()
        },
        None => stored.password.clone(),
    };
    let user = User {
        id: id.clone(),
        cluster_id: request.cluster_id,
        number: request.number,
        name: request.name,
        password,
        role: request.role,
    };
    let changed = respond(&user);
    let ghost before = reg.user@;
    reg.user.set_value_at(i, user);
    assert(reg.user@.remove(id@) =~= before.remove(id@));
    Ok(changed)
}

/// Changes the account `id` as `request` asks, hashing the requested
/// password where it is long enough. The stored password stays, or the
/// requested one is long enough and fits the new one. What the answer and
/// the store look like for each outcome of the hashing is what
/// [`apply_user_change`] states.
pub fn update_user(
    reg: &mut Registry,
    issuer: &Option<UserAuthenticationData>,
    id: &String,
    request: UserRequest,
) -> (r: Result<UserResponse, Reply>)
    requires
        old(reg).wf(),
    ensures
        final(reg).wf(),
        final(reg).cluster == old(reg).cluster,
        final(reg).uniform == old(reg).uniform,
        final(reg).processor == old(reg).processor,
        final(reg).camera == old(reg).camera,
        final(reg).evidence == old(reg).evidence,
        final(reg).subscriber == old(reg).subscriber,
        match change_refusal(*old(reg), *issuer, id@, request) {
            Some(refused) => r matches Err(reply) && (reply.status, reply.body@) == refused
                && *final(reg) == *old(reg),
            None => r matches Ok(changed) && {
                &&& changed@ == (UserResponseView {
                    id: id@,
                    cluster_id: texts(request.cluster_id@),
                    number: request.number@,
                    name: request.name@,
                    role: request.role,
                })
                &&& final(reg).user@.contains_key(id@)
                &&& final(reg).user@.remove(id@) == old(reg).user@.remove(id@)
                &&& shown(final(reg).user@[id@]) == changed@
                &&& final(reg).user@[id@].password == old(reg).user@[id@].password || (
                is_long_enough(request.password@) && password_fits(
                    request.password@,
                    final(reg).user@[id@].password@,
                ))
            },
        },
{
    let hash = if long_enough(&request.password) {
        bcrypt_hash(&request.password)
    } else {
        None
    };
    apply_user_change(reg, issuer, id, request, hash)
}

} // verus!
