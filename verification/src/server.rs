//! The authentication service: it keeps the registered commitments and the
//! open authentication sessions, issues challenges and checks responses.

use crate::bignum::{
    be_bytes, be_value, big_clone, big_from_bytes_be, big_to_bytes_be, lemma_encode_then_decode,
    value_of,
};
use crate::group::GroupParameters;
use crate::params::default_group;
use crate::random::{
    is_alphanumeric_text, new_auth_id, random_string, AUTH_ID_LEN, SESSION_TOKEN_LEN,
};
use crate::{default_cfg, gen_random_number_below, AuthError, ZKP};
use num_bigint::BigUint;
use vstd::hash_map::StringHashMap;
use vstd::prelude::*;

verus! {

/// The public commitment `(y1, y2)` that a user registered.
pub struct Commitment {
    pub y1: BigUint,
    pub y2: BigUint,
}

impl View for Commitment {
    type V = (nat, nat);

    open spec fn view(&self) -> (nat, nat) {
        (value_of(&self.y1), value_of(&self.y2))
    }
}

/// The ephemeral commitment `(r1, r2)` of one authentication attempt and the
/// challenge `c` issued for it.
pub struct Challenge {
    pub r1: BigUint,
    pub r2: BigUint,
    pub c: BigUint,
}

impl View for Challenge {
    type V = (nat, nat, nat);

    open spec fn view(&self) -> (nat, nat, nat) {
        (value_of(&self.r1), value_of(&self.r2), value_of(&self.c))
    }
}

/// The state of the service as mathematics.
pub struct ServiceState {
    /// For each registered user, the commitment `(y1, y2)`.
    pub users: Map<Seq<char>, (nat, nat)>,
    /// For each session that has not been answered, `(r1, r2, c)`.
    pub challenges: Map<Seq<char>, (nat, nat, nat)>,
    /// For each session that was ever opened, the user it was opened for.
    pub user_auth: Map<Seq<char>, Seq<char>>,
}

impl ServiceState {
    /// The state of a service that has seen no request.
    pub open spec fn empty() -> ServiceState {
        ServiceState { users: Map::empty(), challenges: Map::empty(), user_auth: Map::empty() }
    }

    /// `user` has registered a commitment.
    pub open spec fn is_registered(self, user: Seq<char>) -> bool {
        self.users.contains_key(user)
    }

    /// The state after `user` registers `(y1, y2)`: the last registration wins.
    pub open spec fn register(self, user: Seq<char>, y1: nat, y2: nat) -> ServiceState {
        ServiceState {
            users: self.users.insert(user, (y1, y2)),
            challenges: self.challenges,
            user_auth: self.user_auth,
        }
    }

    /// The state after a session `auth_id` is opened for `user` with the
    /// ephemeral commitment `(r1, r2)` and the challenge `c`.
    pub open spec fn open_session(
        self,
        user: Seq<char>,
        r1: nat,
        r2: nat,
        auth_id: Seq<char>,
        c: nat,
    ) -> ServiceState {
        ServiceState {
            users: self.users,
            challenges: self.challenges.insert(auth_id, (r1, r2, c)),
            user_auth: self.user_auth.insert(auth_id, user),
        }
    }

    /// The session `auth_id` was opened, has not been answered, and its user
    /// is registered.
    pub open spec fn is_open(self, auth_id: Seq<char>) -> bool {
        &&& self.user_auth.contains_key(auth_id)
        &&& self.users.contains_key(self.user_auth[auth_id])
        &&& self.challenges.contains_key(auth_id)
    }

    /// The response `s` satisfies the verification equations of session
    /// `auth_id` in `group`.
    pub open spec fn proves(self, group: GroupParameters, auth_id: Seq<char>, s: nat) -> bool {
        let (y1, y2) = self.users[self.user_auth[auth_id]];
        let (r1, r2, c) = self.challenges[auth_id];
        group.verify(r1, r2, y1, y2, c, s)
    }

    /// The state after session `auth_id` is answered: its challenge is gone,
    /// so that it cannot be answered again.
    pub open spec fn close_session(self, auth_id: Seq<char>) -> ServiceState {
        ServiceState {
            users: self.users,
            challenges: self.challenges.remove(auth_id),
            user_auth: self.user_auth,
        }
    }

    /// What answering session `auth_id` with the response `s` does: the next
    /// state and the verdict. A session that is not open is not found and
    /// changes nothing; an open session is closed by its first answer, whether
    /// the response is accepted or not.
    pub open spec fn answer(self, group: GroupParameters, auth_id: Seq<char>, s: nat) -> (
        ServiceState,
        Result<(), AuthError>,
    ) {
        if !self.is_open(auth_id) {
            (self, Err(AuthError::NotFound))
        } else if self.proves(group, auth_id, s) {
            (self.close_session(auth_id), Ok(()))
        } else {
            (self.close_session(auth_id), Err(AuthError::InvalidProof))
        }
    }

    /// A session is single-use: once it has been answered, with whatever
    /// verdict, every further answer finds no session and changes nothing.
    pub proof fn lemma_session_is_single_use(
        self,
        group: GroupParameters,
        auth_id: Seq<char>,
        s: nat,
        s2: nat,
    )
        ensures
            ({
                let after = self.answer(group, auth_id, s).0;
                after.answer(group, auth_id, s2) == (after, Err::<(), AuthError>(AuthError::NotFound))
            }),
    {
    }

    /// The session that a challenge request of a registered user opens is open.
    pub proof fn lemma_opened_session_is_open(
        self,
        user: Seq<char>,
        r1: nat,
        r2: nat,
        auth_id: Seq<char>,
        c: nat,
    )
        requires
            self.is_registered(user),
        ensures
            self.open_session(user, r1, r2, auth_id, c).is_open(auth_id),
    {
    }

    /// An honest prover is admitted: where `user` registered the commitment
    /// to a secret `x` and opened a session with the commitment to a nonce
    /// `k`, the response `(k - c * x) mod q` to the challenge `c` is accepted
    /// and closes the session.
    pub proof fn lemma_honest_prover_is_admitted(
        self,
        group: GroupParameters,
        user: Seq<char>,
        auth_id: Seq<char>,
        x: nat,
        k: nat,
        c: nat,
    )
        requires
            group.valid(),
        ensures
            ({
                let (y1, y2) = group.commit(x);
                let (r1, r2) = group.commit(k);
                let opened = self.register(user, y1, y2).open_session(user, r1, r2, auth_id, c);
                opened.answer(group, auth_id, group.solve(k, c, x)) == (
                    opened.close_session(auth_id),
                    Ok::<(), AuthError>(()),
                )
            }),
    {
        group.lemma_honest_response_accepted(x, k, c);
    }
}

/// Checks the response `s` against a claimed session in the default group:
/// both verification equations must hold.
pub fn response_holds(commitment: &Commitment, challenge: &Challenge, s: &BigUint) -> (ok: bool)
    ensures
        ok == default_group().verify(
            challenge@.0,
            challenge@.1,
            commitment@.0,
            commitment@.1,
            challenge@.2,
            value_of(s),
        ),
{
    let (g, h, p, q) = default_cfg();
    let zkp = ZKP { g, h, p, q };
    zkp.verify(&challenge.r1, &challenge.r2, &commitment.y1, &commitment.y2, &challenge.c, s)
}

/// Judges the response `s`, given as big-endian bytes, to a claimed session:
/// an accepted response earns a session token of 32 letters and digits, any
/// other is an invalid proof. It touches no state of the service, so that a
/// caller need not hold the service while the powers are computed.
pub fn judge_response(commitment: &Commitment, challenge: &Challenge, s: &[u8]) -> (r: Result<
    String,
    AuthError,
>)
    ensures
        match r {
            Ok(token) => {
                &&& default_group().verify(
                    challenge@.0,
                    challenge@.1,
                    commitment@.0,
                    commitment@.1,
                    challenge@.2,
                    be_value(s@),
                )
                &&& token@.len() == SESSION_TOKEN_LEN
                &&& is_alphanumeric_text(token@)
            },
            Err(e) => {
                &&& !default_group().verify(
                    challenge@.0,
                    challenge@.1,
                    commitment@.0,
                    commitment@.1,
                    challenge@.2,
                    be_value(s@),
                )
                &&& e == AuthError::InvalidProof
            },
        },
{
    let s = big_from_bytes_be(s);
    if response_holds(commitment, challenge, &s) {
        Ok(random_string(SESSION_TOKEN_LEN))
    } else {
        Err(AuthError::InvalidProof)
    }
}

/// The authentication service.
pub struct AuthSvc {
    users: StringHashMap<Commitment>,
    challenges: StringHashMap<Challenge>,
    user_auth: StringHashMap<String>,
}

impl View for AuthSvc {
    type V = ServiceState;

    closed spec fn view(&self) -> ServiceState {
        ServiceState {
            users: self.users@.map_values(|c: Commitment| c@),
            challenges: self.challenges@.map_values(|c: Challenge| c@),
            user_auth: self.user_auth@.map_values(|u: String| u@),
        }
    }
}

impl Default for AuthSvc {
    /// A service that has seen no request.
    fn default() -> (svc: AuthSvc)
        ensures
            svc@ == ServiceState::empty(),
    {
        AuthSvc::new()
    }
}

impl AuthSvc {
    /// A service that has seen no request.
    pub fn new() -> (svc: AuthSvc)
        ensures
            svc@ == ServiceState::empty(),
    {
        let svc = AuthSvc {
            users: StringHashMap::new(),
            challenges: StringHashMap::new(),
            user_auth: StringHashMap::new(),
        };
        assert(svc@.users =~= Map::empty());
        assert(svc@.challenges =~= Map::empty());
        assert(svc@.user_auth =~= Map::empty());
        svc
    }

    /// Stores the commitment `(y1, y2)`, given as big-endian bytes, for
    /// `user`, in place of any earlier one. Every value is accepted.
    pub fn register(&mut self, user: String, y1: &[u8], y2: &[u8])
        ensures
            final(self)@ == old(self)@.register(user@, be_value(y1@), be_value(y2@)),
    {
        let commitment = Commitment { y1: big_from_bytes_be(y1), y2: big_from_bytes_be(y2) };
        self.users.insert(user, commitment);
        assert(self@.users =~= old(self)@.users.insert(user@, (be_value(y1@), be_value(y2@))));
    }

    /// Opens the session `auth_id` for `user` with the ephemeral commitment
    /// `(r1, r2)` and the challenge `c`, if `user` is registered. A session
    /// of the same name is replaced.
    pub fn open_session(
        &mut self,
        user: String,
        r1: BigUint,
        r2: BigUint,
        auth_id: String,
        c: BigUint,
    ) -> (r: Result<(), AuthError>)
        ensures
            old(self)@.is_registered(user@) ==> r is Ok && final(self)@ == old(self)@.open_session(
                user@,
                value_of(&r1),
                value_of(&r2),
                auth_id@,
                value_of(&c),
            ),
            !old(self)@.is_registered(user@) ==> r == Err::<(), AuthError>(AuthError::NotFound)
                && final(self)@ == old(self)@,
    {
        if !self.users.contains_key(user.as_str()) {
            return Err(AuthError::NotFound);
        }
        let ghost challenge = (value_of(&r1), value_of(&r2), value_of(&c));
        self.challenges.insert(auth_id.clone(), Challenge { r1, r2, c });
        self.user_auth.insert(auth_id, user);
        assert(self@.challenges =~= old(self)@.challenges.insert(auth_id@, challenge));
        assert(self@.user_auth =~= old(self)@.user_auth.insert(auth_id@, user@));
        Ok(())
    }

    /// Issues a challenge to `user` for the ephemeral commitment `(r1, r2)`,
    /// given as big-endian bytes: draws the challenge `c` below the order `q`
    /// of the default group and a fresh session identifier, opens the session
    /// and returns the identifier with `c` in big-endian bytes. For a user who
    /// is not registered nothing changes.
    pub fn authentication_challenge(&mut self, user: String, r1: &[u8], r2: &[u8]) -> (r: Result<
        (String, Vec<u8>),
        AuthError,
    >)
        ensures
            match r {
                Ok((auth_id, c)) => {
                    &&& old(self)@.is_registered(user@)
                    &&& auth_id@.len() == AUTH_ID_LEN
                    &&& be_value(c@) < default_group().q
                    &&& c@ == be_bytes(be_value(c@))
                    &&& final(self)@ == old(self)@.open_session(
                        user@,
                        be_value(r1@),
                        be_value(r2@),
                        auth_id@,
                        be_value(c@),
                    )
                },
                Err(e) => {
                    &&& !old(self)@.is_registered(user@)
                    &&& e == AuthError::NotFound
                    &&& final(self)@ == old(self)@
                },
            },
    {
        if !self.users.contains_key(user.as_str()) {
            return Err(AuthError::NotFound);
        }
        let (_, _, _, q) = default_cfg();
        let c = gen_random_number_below(&q);
        let auth_id = new_auth_id();
        let c_bytes = big_to_bytes_be(&c);
        proof {
            lemma_encode_then_decode(value_of(&c));
        }
        let opened = self.open_session(
            user,
            big_from_bytes_be(r1),
            big_from_bytes_be(r2),
            auth_id.clone(),
            c,
        );
        match opened {
            Ok(()) => Ok((auth_id, c_bytes)),
            Err(e) => Err(e),
        }
    }

    /// Claims session `auth_id` for its one answer: looks the session up and
    /// closes it in one step, and hands out the user's commitment and the
    /// session's challenge. A session that is not open is not found, and
    /// nothing changes.
    pub fn claim_session(&mut self, auth_id: &str) -> (r: Result<
        (Commitment, Challenge),
        AuthError,
    >)
        ensures
            match r {
                Ok((commitment, challenge)) => {
                    &&& old(self)@.is_open(auth_id@)
                    &&& commitment@ == old(self)@.users[old(self)@.user_auth[auth_id@]]
                    &&& challenge@ == old(self)@.challenges[auth_id@]
                    &&& final(self)@ == old(self)@.close_session(auth_id@)
                },
                Err(e) => {
                    &&& !old(self)@.is_open(auth_id@)
                    &&& e == AuthError::NotFound
                    &&& final(self)@ == old(self)@
                },
            },
    {
        let user_id = match self.user_auth.get(auth_id) {
            Some(user_id) => user_id,
            None => {
                return Err(AuthError::NotFound);
            },
        };
        let commitment = match self.users.get(user_id.as_str()) {
            Some(stored) => Commitment { y1: big_clone(&stored.y1), y2: big_clone(&stored.y2) },
            None => {
                return Err(AuthError::NotFound);
            },
        };
        let challenge = match self.challenges.get(auth_id) {
            Some(stored) => Challenge {
                r1: big_clone(&stored.r1),
                r2: big_clone(&stored.r2),
                c: big_clone(&stored.c),
            },
            None => {
                return Err(AuthError::NotFound);
            },
        };
        self.challenges.remove(auth_id);
        assert(self@.challenges =~= old(self)@.challenges.remove(auth_id@));
        Ok((commitment, challenge))
    }

    /// Answers session `auth_id` with the response `s`, checked in the
    /// default group. The first answer to an open session closes it.
    pub fn check_response(&mut self, auth_id: &str, s: &BigUint) -> (r: Result<(), AuthError>)
        ensures
            (final(self)@, r) == old(self)@.answer(default_group(), auth_id@, value_of(s)),
    {
        match self.claim_session(auth_id) {
            Ok((commitment, challenge)) => {
                if response_holds(&commitment, &challenge, s) {
                    Ok(())
                } else {
                    Err(AuthError::InvalidProof)
                }
            },
            Err(e) => Err(e),
        }
    }

    /// Answers session `auth_id` with the response `s`, given as big-endian
    /// bytes, and issues a session token of 32 letters and digits if the
    /// response is accepted.
    pub fn verify_authentication(&mut self, auth_id: &str, s: &[u8]) -> (r: Result<
        String,
        AuthError,
    >)
        ensures
            final(self)@ == old(self)@.answer(default_group(), auth_id@, be_value(s@)).0,
            match r {
                Ok(token) => {
                    &&& old(self)@.answer(default_group(), auth_id@, be_value(s@)).1 is Ok
                    &&& token@.len() == SESSION_TOKEN_LEN
                    &&& is_alphanumeric_text(token@)
                },
                Err(e) => old(self)@.answer(default_group(), auth_id@, be_value(s@)).1 == Err::<
                    (),
                    AuthError,
                >(e),
            },
    {
        match self.claim_session(auth_id) {
            Ok((commitment, challenge)) => judge_response(&commitment, &challenge, s),
            Err(e) => Err(e),
        }
    }

    /// The commitment that `user` registered, if any.
    pub fn get_user(&self, user: &str) -> (r: Option<(BigUint, BigUint)>)
        ensures
            match r {
                Some((y1, y2)) => self@.is_registered(user@) && (value_of(&y1), value_of(&y2))
                    == self@.users[user@],
                None => !self@.is_registered(user@),
            },
    {
        match self.users.get(user) {
            Some(commitment) => Some((big_clone(&commitment.y1), big_clone(&commitment.y2))),
            None => None,
        }
    }

    /// The ephemeral commitment and the challenge `(r1, r2, c)` of session
    /// `auth_id`, if it has not been answered.
    pub fn get_challenge(&self, auth_id: &str) -> (r: Option<(BigUint, BigUint, BigUint)>)
        ensures
            match r {
                Some((r1, r2, c)) => self@.challenges.contains_key(auth_id@) && (
                    value_of(&r1),
                    value_of(&r2),
                    value_of(&c),
                ) == self@.challenges[auth_id@],
                None => !self@.challenges.contains_key(auth_id@),
            },
    {
        match self.challenges.get(auth_id) {
            Some(challenge) => Some(
                (big_clone(&challenge.r1), big_clone(&challenge.r2), big_clone(&challenge.c)),
            ),
            None => None,
        }
    }

    /// The user that session `auth_id` was opened for, if it ever was opened.
    pub fn get_session_user(&self, auth_id: &str) -> (r: Option<String>)
        ensures
            match r {
                Some(user) => self@.user_auth.contains_key(auth_id@) && user@
                    == self@.user_auth[auth_id@],
                None => !self@.user_auth.contains_key(auth_id@),
            },
    {
        match self.user_auth.get(auth_id) {
            Some(user) => Some(user.clone()),
            None => None,
        }
    }
}

} // verus!
