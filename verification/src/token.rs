//! The token store: issues unique, time-bounded authorization tokens over
//! a set-if-absent-with-expiry discipline, with candidate strings drawn
//! from a fixed alphanumeric alphabet.

use vstd::prelude::*;
use crate::strutil::{spec_udec, spec_pad2, str_eq, u64_to_string, pad2_to_string};

verus! {

/// The thread-local random generator of the `rand` crate, opaque here.
#[verifier::external_type_specification]
#[verifier::external_body]
pub struct ExThreadRng(rand::rngs::ThreadRng);

/// Relies on rand::thread_rng: a handle to the thread-local generator.
/// Nothing is promised of it.
#[verifier::external_body]
fn fresh_rng() -> rand::rngs::ThreadRng {
    rand::thread_rng()
}

/// One byte of the token alphabet: an ASCII digit or letter.
pub open spec fn is_token_byte(b: u8) -> bool {
    (48 <= b <= 57) || (65 <= b <= 90) || (97 <= b <= 122)
}

/// One character of the token alphabet: an ASCII digit or letter.
pub open spec fn is_token_char(c: char) -> bool {
    (48 <= c as int <= 57) || (65 <= c as int <= 90) || (97 <= c as int <= 122)
}

/// Relies on Rng::sample with the Alphanumeric distribution: each sample
/// is one byte drawn from `A-Z`, `a-z`, `0-9`.  Which byte comes is
/// random; nothing more is promised.
#[verifier::external_body]
fn sample_alphanumeric(rng: &mut rand::rngs::ThreadRng) -> (b: u8)
    ensures
        is_token_byte(b),
{
    rand::Rng::sample(rng, rand::distributions::Alphanumeric)
}

/// Relies on String::from_utf8: bytes below 128 are valid UTF-8 and
/// decode to exactly their characters, so this input never fails.
#[verifier::external_body]
fn ascii_string(bytes: Vec<u8>) -> (s: String)
    requires
        forall|i: int| 0 <= i < bytes@.len() ==> bytes@[i] < 128,
    ensures
        s@ == bytes@.map_values(|b: u8| b as char),
{
    String::from_utf8(bytes).unwrap()
}

/// Draws one candidate token: sixteen characters over the alphanumeric
/// alphabet.
pub fn random_token() -> (t: String)
    ensures
        t@.len() == 16,
        forall|i: int| 0 <= i < t@.len() ==> is_token_char(#[trigger] t@[i]),
{
    let mut rng = fresh_rng();
    let mut bytes: Vec<u8> = Vec::new();
    let mut i: usize = 0;
    while i < 16
        invariant
            i <= 16,
            bytes@.len() == i,
            forall|k: int| 0 <= k < bytes@.len() ==> is_token_byte(#[trigger] bytes@[k]),
        decreases 16 - i,
    {
        let b = sample_alphanumeric(&mut rng);
        bytes.push(b);
        i += 1;
    }
    let t = ascii_string(bytes);
    proof {
        assert forall|k: int| 0 <= k < t@.len() implies is_token_char(#[trigger] t@[k]) by {
            assert(t@[k] == bytes@[k] as char);
        }
    }
    t
}

/// Relies on chrono::Local::now with Timelike::hour and Timelike::minute:
/// the hour is 0 to 23 and the minute 0 to 59.  Which reading comes
/// depends on the clock; nothing more is promised.
#[verifier::external_body]
fn local_hour_minute() -> (hm: (u64, u64))
    ensures
        hm.0 < 24,
        hm.1 < 60,
{
    let now = chrono::Local::now();
    (chrono::Timelike::hour(&now) as u64, chrono::Timelike::minute(&now) as u64)
}

/// The stored value of a token: `{userId};{username};{HH:MM}`.
pub open spec fn spec_token_value(
    user_id: nat,
    username: Seq<char>,
    hh: nat,
    mm: nat,
) -> Seq<char> {
    spec_udec(user_id) + seq![';'] + username + seq![';'] + spec_pad2(hh) + seq![':'] + spec_pad2(
        mm,
    )
}

/// Renders the stored value of a token.
pub fn token_value(user_id: u64, username: &str, hh: u64, mm: u64) -> (v: String)
    requires
        hh < 24,
        mm < 60,
    ensures
        v@ == spec_token_value(user_id as nat, username@, hh as nat, mm as nat),
{
    proof {
        reveal_strlit(";");
        reveal_strlit(":");
    }
    let mut v = u64_to_string(user_id);
    v.append(";");
    v.append(username);
    v.append(";");
    let h = pad2_to_string(hh);
    v.append(h.as_str());
    v.append(":");
    let m = pad2_to_string(mm);
    v.append(m.as_str());
    proof {
        assert(v@ =~= spec_token_value(user_id as nat, username@, hh as nat, mm as nat));
    }
    v
}

/// Between issuance and expiry, the token reads back as this user's
/// value stamped with the clock reading `hh:mm`.
pub open spec fn spec_issued_value_ok(
    s: TokenStore,
    token: Seq<char>,
    user_id: u64,
    username: Seq<char>,
    hh: nat,
    mm: nat,
    now: u64,
) -> bool {
    forall|t2: u64|
        t2 < now + 600 ==> s.spec_get(token, t2) == Option::Some(
            spec_token_value(user_id as nat, username, hh, mm),
        )
}

/// One record of the token store.
#[derive(Debug)]
pub struct TokenEntry {
    pub token: String,
    pub value: String,
    pub expires_at: u64,
}

/// An in-memory key/value store with per-key expiry, keyed by the token
/// string itself.  A record is live at an instant exactly while the
/// instant lies before its expiry; expired records count as absent.
#[derive(Debug)]
pub struct TokenStore {
    pub entries: Vec<TokenEntry>,
}

impl TokenStore {
    /// No two records share a token string.
    pub open spec fn wf(&self) -> bool {
        forall|i: int, j: int|
            0 <= i < j < self.entries@.len() ==> (#[trigger] self.entries@[i]).token@ != (
            #[trigger] self.entries@[j]).token@
    }

    /// The token has a live record at instant `now`.
    pub open spec fn spec_live(&self, token: Seq<char>, now: u64) -> bool {
        exists|i: int|
            0 <= i < self.entries@.len() && (#[trigger] self.entries@[i]).token@ == token && now
                < self.entries@[i].expires_at
    }

    /// The value stored live under the token at instant `now`, if any.
    pub open spec fn spec_get(&self, token: Seq<char>, now: u64) -> Option<Seq<char>> {
        if self.spec_live(token, now) {
            let i = choose|i: int|
                0 <= i < self.entries@.len() && (#[trigger] self.entries@[i]).token@ == token
                    && now < self.entries@[i].expires_at;
            Option::Some(self.entries@[i].value@)
        } else {
            Option::None
        }
    }

    /// An empty store.
    pub fn new() -> (s: TokenStore)
        ensures
            s.wf(),
            s.entries@.len() == 0,
    {
        TokenStore { entries: Vec::new() }
    }

    /// Whether the token has a live record at instant `now`.
    pub fn exists_live(&self, token: &str, now: u64) -> (b: bool)
        ensures
            b == self.spec_live(token@, now),
    {
        let mut i: usize = 0;
        while i < self.entries.len()
            invariant
                i <= self.entries@.len(),
                forall|k: int|
                    0 <= k < i ==> !((#[trigger] self.entries@[k]).token@ == token@ && now
                        < self.entries@[k].expires_at),
            decreases self.entries@.len() - i,
        {
            if str_eq(self.entries[i].token.as_str(), token) && now < self.entries[i].expires_at {
                return true;
            }
            i += 1;
        }
        false
    }

    /// The value stored live under the token at instant `now`, if any.
    pub fn get(&self, token: &str, now: u64) -> (r: Option<String>)
        requires
            self.wf(),
        ensures
            match r {
                Option::Some(v) => self.spec_get(token@, now) == Option::Some(v@),
                Option::None => self.spec_get(token@, now) is None,
            },
    {
        let mut i: usize = 0;
        while i < self.entries.len()
            invariant
                self.wf(),
                i <= self.entries@.len(),
                forall|k: int|
                    0 <= k < i ==> !((#[trigger] self.entries@[k]).token@ == token@ && now
                        < self.entries@[k].expires_at),
            decreases self.entries@.len() - i,
        {
            if str_eq(self.entries[i].token.as_str(), token) && now < self.entries[i].expires_at {
                proof {
                    let w = choose|w: int|
                        0 <= w < self.entries@.len() && (#[trigger] self.entries@[w]).token@
                            == token@ && now < self.entries@[w].expires_at;
                    assert(self.entries@[w].token@ == self.entries@[i as int].token@);
                    if w != i as int {
                        assert(false);
                    }
                }
                return Option::Some(self.entries[i].value.clone());
            }
            i += 1;
        }
        Option::None
    }

    /// Records `value` under `token` for 600 seconds from `now`, unless a
    /// live record already holds the token — set if absent, with expiry.
    /// On success the token reads back as the value until the expiry
    /// instant and as absent from the expiry instant on; every other
    /// token reads exactly as before.
    pub fn set_if_absent(&mut self, token: &str, value: &str, now: u64) -> (inserted: bool)
        requires
            old(self).wf(),
            now <= u64::MAX - 600,
        ensures
            final(self).wf(),
            inserted == !old(self).spec_live(token@, now),
            !inserted ==> *final(self) == *old(self),
            inserted ==> forall|t2: u64|
                t2 < now + 600 ==> final(self).spec_get(token@, t2) == Option::Some(value@),
            inserted ==> forall|t2: u64|
                t2 >= now + 600 ==> final(self).spec_get(token@, t2) is None,
            inserted ==> forall|tok2: Seq<char>, t2: u64|
                tok2 != token@ ==> final(self).spec_get(tok2, t2) == old(self).spec_get(tok2, t2),
    {
        let ghost s0 = *self;
        let mut i: usize = 0;
        while i < self.entries.len()
            invariant
                *self == s0,
                s0 == *old(self),
                s0.wf(),
                now <= u64::MAX - 600,
                i <= self.entries@.len(),
                forall|k: int| 0 <= k < i ==> (#[trigger] self.entries@[k]).token@ != token@,
            decreases self.entries@.len() - i,
        {
            if str_eq(self.entries[i].token.as_str(), token) {
                if now < self.entries[i].expires_at {
                    proof {
                        assert(s0.spec_live(token@, now));
                    }
                    return false;
                }
                let entry = TokenEntry {
                    token: String::from_str(token),
                    value: String::from_str(value),
                    expires_at: now + 600,
                };
                self.entries.set(i, entry);
                proof {
                    lemma_store_updated(s0, *self, i as int, token@, value@, now);
                }
                return true;
            }
            i += 1;
        }
        let entry = TokenEntry {
            token: String::from_str(token),
            value: String::from_str(value),
            expires_at: now + 600,
        };
        self.entries.push(entry);
        proof {
            assert(!s0.spec_live(token@, now));
            lemma_store_updated(s0, *self, s0.entries@.len() as int, token@, value@, now);
        }
        true
    }

    /// One independent probe-then-set attempt with a caller-supplied
    /// candidate: issues the candidate exactly when no live token equals
    /// it.
    pub fn try_issue(
        &mut self,
        candidate: &str,
        user_id: u64,
        username: &str,
        hh: u64,
        mm: u64,
        now: u64,
    ) -> (issued: bool)
        requires
            old(self).wf(),
            hh < 24,
            mm < 60,
            now <= u64::MAX - 600,
        ensures
            final(self).wf(),
            issued == !old(self).spec_live(candidate@, now),
            !issued ==> *final(self) == *old(self),
            issued ==> forall|t2: u64|
                t2 < now + 600 ==> final(self).spec_get(candidate@, t2) == Option::Some(
                    spec_token_value(user_id as nat, username@, hh as nat, mm as nat),
                ),
            issued ==> forall|t2: u64|
                t2 >= now + 600 ==> final(self).spec_get(candidate@, t2) is None,
            issued ==> forall|tok2: Seq<char>, t2: u64|
                tok2 != candidate@ ==> final(self).spec_get(tok2, t2) == old(self).spec_get(
                    tok2,
                    t2,
                ),
    {
        let value = token_value(user_id, username, hh, mm);
        self.set_if_absent(candidate, value.as_str(), now)
    }

    /// Issues a fresh token for the user: draws random candidates and
    /// retries on collision, each retry one independent probe-then-set
    /// attempt, up to `max_attempts` of them.  The issued token was live
    /// for nobody before and reads back as this user's value until its
    /// expiry, 600 seconds on.
    pub fn issue_token(
        &mut self,
        user_id: u64,
        username: &str,
        now: u64,
        max_attempts: usize,
    ) -> (r: Option<String>)
        requires
            old(self).wf(),
            now <= u64::MAX - 600,
        ensures
            final(self).wf(),
            match r {
                Option::Some(token) => {
                    &&& token@.len() == 16
                    &&& forall|i: int| 0 <= i < token@.len() ==> is_token_char(#[trigger] token@[i])
                    &&& !old(self).spec_live(token@, now)
                    &&& exists|hh: nat, mm: nat|
                        hh < 24 && mm < 60 && #[trigger] spec_issued_value_ok(
                            *final(self),
                            token@,
                            user_id,
                            username@,
                            hh,
                            mm,
                            now,
                        )
                    &&& forall|t2: u64|
                        t2 >= now + 600 ==> final(self).spec_get(token@, t2) is None
                    &&& forall|tok2: Seq<char>, t2: u64|
                        tok2 != token@ ==> final(self).spec_get(tok2, t2) == old(self).spec_get(
                            tok2,
                            t2,
                        )
                },
                Option::None => *final(self) == *old(self),
            },
            (max_attempts >= 1 && (forall|tok: Seq<char>| !old(self).spec_live(tok, now)))
                ==> r is Some,
    {
        let (hh, mm) = local_hour_minute();
        let mut attempts: usize = 0;
        while attempts < max_attempts
            invariant
                self.wf(),
                *self == *old(self),
                hh < 24,
                mm < 60,
                now <= u64::MAX - 600,
                attempts > 0 ==> exists|tok: Seq<char>| old(self).spec_live(tok, now),
            decreases max_attempts - attempts,
        {
            let candidate = random_token();
            if self.try_issue(candidate.as_str(), user_id, username, hh, mm, now) {
                proof {
                    let hhn = hh as nat;
                    let mmn = mm as nat;
                    assert(spec_issued_value_ok(
                        *self,
                        candidate@,
                        user_id,
                        username@,
                        hhn,
                        mmn,
                        now,
                    ));
                }
                return Option::Some(candidate);
            }
            proof {
                assert(old(self).spec_live(candidate@, now));
            }
            attempts += 1;
        }
        Option::None
    }
}

/// After writing a record at one slot, the written token reads back as
/// the new value until its expiry and as absent after it, and every
/// other token reads as before.
proof fn lemma_store_updated(
    s0: TokenStore,
    s1: TokenStore,
    slot: int,
    token: Seq<char>,
    value: Seq<char>,
    now: u64,
)
    requires
        s0.wf(),
        now <= u64::MAX - 600,
        0 <= slot <= s0.entries@.len(),
        s1.entries@.len() == if slot < s0.entries@.len() {
            s0.entries@.len()
        } else {
            s0.entries@.len() + 1
        },
        forall|k: int|
            0 <= k < s0.entries@.len() && k != slot ==> s1.entries@[k] == s0.entries@[k],
        s1.entries@[slot].token@ == token,
        s1.entries@[slot].value@ == value,
        s1.entries@[slot].expires_at == now + 600,
        forall|k: int| 0 <= k < s0.entries@.len() && k != slot ==> s0.entries@[k].token@ != token,
        slot < s0.entries@.len() ==> s0.entries@[slot].token@ == token,
    ensures
        s1.wf(),
        forall|t2: u64| t2 < now + 600 ==> s1.spec_get(token, t2) == Option::Some(value),
        forall|t2: u64| t2 >= now + 600 ==> s1.spec_get(token, t2) is None,
        forall|tok2: Seq<char>, t2: u64|
            tok2 != token ==> s1.spec_get(tok2, t2) == s0.spec_get(tok2, t2),
{
    assert forall|i: int, j: int|
        0 <= i < j < s1.entries@.len() implies (#[trigger] s1.entries@[i]).token@ != (
    #[trigger] s1.entries@[j]).token@ by {
        if i != slot && j != slot {
            assert(s1.entries@[i] == s0.entries@[i]);
            assert(s1.entries@[j] == s0.entries@[j]);
        }
    }
    assert forall|t2: u64| t2 < now + 600 implies s1.spec_get(token, t2) == Option::Some(
        value,
    ) by {
        assert(s1.entries@[slot].token@ == token && t2 < s1.entries@[slot].expires_at);
        assert(s1.spec_live(token, t2));
        let w = choose|w: int|
            0 <= w < s1.entries@.len() && (#[trigger] s1.entries@[w]).token@ == token && t2
                < s1.entries@[w].expires_at;
        if w != slot {
            assert(s1.entries@[w].token@ != s1.entries@[slot].token@);
        }
    }
    assert forall|t2: u64| t2 >= now + 600 implies s1.spec_get(token, t2) is None by {
        if s1.spec_live(token, t2) {
            let w = choose|w: int|
                0 <= w < s1.entries@.len() && (#[trigger] s1.entries@[w]).token@ == token && t2
                    < s1.entries@[w].expires_at;
            if w != slot {
                assert(s0.entries@[w].token@ != token);
            }
        }
    }
    assert forall|tok2: Seq<char>, t2: u64| tok2 != token implies s1.spec_get(tok2, t2)
        == s0.spec_get(tok2, t2) by {
        if s1.spec_live(tok2, t2) {
            let w = choose|w: int|
                0 <= w < s1.entries@.len() && (#[trigger] s1.entries@[w]).token@ == tok2 && t2
                    < s1.entries@[w].expires_at;
            assert(w != slot);
            assert(s0.entries@[w] == s1.entries@[w]);
            assert(s0.spec_live(tok2, t2));
            let w0 = choose|k: int|
                0 <= k < s0.entries@.len() && (#[trigger] s0.entries@[k]).token@ == tok2 && t2
                    < s0.entries@[k].expires_at;
            if w0 != w {
                assert(false);
            }
        } else {
            if s0.spec_live(tok2, t2) {
                let w0 = choose|k: int|
                    0 <= k < s0.entries@.len() && (#[trigger] s0.entries@[k]).token@ == tok2 && t2
                        < s0.entries@[k].expires_at;
                assert(w0 != slot);
                assert(s1.entries@[w0] == s0.entries@[w0]);
                assert(s1.spec_live(tok2, t2));
            }
        }
    }
}

/// Token uniqueness: at any instant, no two live records of one store
/// hold the same token string.
pub proof fn lemma_token_uniqueness(s: TokenStore, now: u64, i: int, j: int)
    requires
        s.wf(),
        0 <= i < j < s.entries@.len(),
        now < s.entries@[i].expires_at,
        now < s.entries@[j].expires_at,
    ensures
        s.entries@[i].token@ != s.entries@[j].token@,
{
}

} // verus!
