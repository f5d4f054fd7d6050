//! The recomputation engine: it remembers for which input the digest on display
//! was computed, and computes a new one only when the input has changed.

use vstd::prelude::*;
use vstd::std_specs::cmp::PartialEqSpecImpl;
use vstd::string::*;
use vstd::utf8::*;
use crate::digest::{bcrypt_digest, cost_allowed, digest_or_error, hash_with_salt, HashError};
use crate::entropy::{random_salt, EntropyUnavailable};
use crate::hex::{hex, hex_text};
use crate::salt::{compute_salt, lemma_resolve_hex_of_raw, resolve, SaltError, SALT_LEN};

verus! {

/// Cost of a newly made engine's input.
pub const INITIAL_COST: u32 = 4;

/// Cost of the input that a newly made engine pretends to have computed last.
/// No digest exists for it, so it never equals an input that was computed.
pub const SENTINEL_COST: u32 = 0xFFFF_FFFF;

/// One input to the hash, as the user entered it.
#[derive(Debug)]
pub struct BcryptorStateInput {
    pub cost: u32,
    pub value: String,
    pub salt: String,
}

/// The mathematical value of a [`BcryptorStateInput`].
pub struct InputSnapshot {
    pub cost: u32,
    pub password: Seq<char>,
    pub salt: Seq<char>,
}

impl View for BcryptorStateInput {
    type V = InputSnapshot;

    open spec fn view(&self) -> InputSnapshot {
        InputSnapshot { cost: self.cost, password: self.value@, salt: self.salt@ }
    }
}

impl InputSnapshot {
    /// The raw salt that the salt text stands for, if it is well-formed.
    pub open spec fn raw_salt(self) -> Option<Seq<u8>> {
        resolve(encode_utf8(self.salt))
    }

    /// The digest of this input: there is one exactly when the salt text is
    /// well-formed and the cost is allowed.
    pub open spec fn digest(self) -> Option<Seq<char>> {
        match self.raw_salt() {
            Some(salt) => if cost_allowed(self.cost) {
                Some(bcrypt_digest(self.password, self.cost, salt))
            } else {
                None
            },
            None => None,
        }
    }
}

/// Why an input has no digest.
#[derive(Debug)]
pub enum DigestError {
    /// The salt text is malformed.
    Salt(SaltError),
    /// The salt is fine, and the hashing primitive refused the rest.
    Hash(HashError),
}

impl Clone for BcryptorStateInput {
    fn clone(&self) -> (out: Self)
        ensures
            out@ == self@,
    {
        BcryptorStateInput { cost: self.cost, value: self.value.clone(), salt: self.salt.clone() }
    }
}

impl PartialEq for BcryptorStateInput {
    fn eq(&self, other: &Self) -> (r: bool) {
        self.cost == other.cost && self.value == other.value && self.salt == other.salt
    }
}

impl Eq for BcryptorStateInput {}

impl PartialEqSpecImpl for BcryptorStateInput {
    open spec fn obeys_eq_spec() -> bool {
        true
    }

    open spec fn eq_spec(&self, other: &Self) -> bool {
        self@ == other@
    }
}

impl BcryptorStateInput {
    /// An input made of the three values given.
    pub fn from(cost: u32, value: &str, salt: &str) -> (out: BcryptorStateInput)
        ensures
            out@ == (InputSnapshot { cost, password: value@, salt: salt@ }),
    {
        BcryptorStateInput { cost, value: value.to_owned(), salt: salt.to_owned() }
    }

    /// Computes the digest of this input: resolves the salt text, then hashes
    /// the password at the cost with that salt.
    pub fn hash(&self) -> (res: Result<String, DigestError>)
        ensures
            res is Ok <==> self@.digest() is Some,
            res matches Ok(digest) ==> self@.digest() == Some(digest@),
            res matches Err(e) ==> (e is Salt <==> self@.raw_salt() is None),
    {
        let salt_parsed = match compute_salt(self.salt.as_str()) {
            Ok(salt) => salt,
            Err(e) => {
                return Err(DigestError::Salt(e));
            },
        };
        match digest_or_error(hash_with_salt(self.value.as_str(), self.cost, salt_parsed)) {
            Ok(digest) => Ok(digest),
            Err(e) => Err(DigestError::Hash(e)),
        }
    }
}

/// The engine's state: the input as it stands, the input for which the digest
/// on display was computed, that digest, and whether the latest attempt to
/// compute one succeeded.
#[derive(Debug)]
pub struct BcryptorState {
    current: BcryptorStateInput,
    last_computed: BcryptorStateInput,
    last_result: String,
    currently_valid: bool,
}

/// The mathematical value of a [`BcryptorState`].
pub struct EngineModel {
    pub current: InputSnapshot,
    pub last_computed: InputSnapshot,
    pub last_digest: Seq<char>,
    pub is_valid: bool,
}

impl View for BcryptorState {
    type V = EngineModel;

    closed spec fn view(&self) -> EngineModel {
        EngineModel {
            current: self.current@,
            last_computed: self.last_computed@,
            last_digest: self.last_result@,
            is_valid: self.currently_valid,
        }
    }
}

impl EngineModel {
    /// The state in which an engine is made, before anything was computed:
    /// the input holds the salt text given, and the input computed last is a
    /// sentinel.
    pub open spec fn initial(salt: Seq<char>) -> EngineModel {
        EngineModel {
            current: InputSnapshot { cost: INITIAL_COST, password: Seq::empty(), salt },
            last_computed: InputSnapshot {
                cost: SENTINEL_COST,
                password: Seq::empty(),
                salt: Seq::empty(),
            },
            last_digest: Seq::empty(),
            is_valid: true,
        }
    }

    /// The state of an engine that was made with the random bytes `entropy` as
    /// its salt: the digest of the empty password is on display.
    pub open spec fn started(entropy: Seq<u8>) -> EngineModel {
        let input = InputSnapshot {
            cost: INITIAL_COST,
            password: Seq::empty(),
            salt: hex_text(entropy),
        };
        EngineModel {
            current: input,
            last_computed: input,
            last_digest: bcrypt_digest(Seq::empty(), INITIAL_COST, entropy),
            is_valid: true,
        }
    }

    /// The digest on display was computed for the input as it stands.
    pub open spec fn fresh(self) -> bool {
        self.current == self.last_computed
    }

    /// The digest on display is the digest of the input computed last.
    pub open spec fn consistent(self) -> bool {
        self.last_computed.digest() == Some(self.last_digest)
    }

    /// The state after an attempt to compute the digest of the current input
    /// has ended with `outcome`.
    pub open spec fn recorded(self, outcome: Option<Seq<char>>) -> EngineModel {
        match outcome {
            Some(digest) => EngineModel {
                current: self.current,
                last_computed: self.current,
                last_digest: digest,
                is_valid: true,
            },
            None => EngineModel { is_valid: false, ..self },
        }
    }

    /// The state after a refresh: unchanged when fresh, else what the attempt
    /// on the current input leaves.
    pub open spec fn refreshed(self) -> EngineModel {
        if self.fresh() {
            self
        } else {
            self.recorded(self.current.digest())
        }
    }

    /// The state with another password.
    pub open spec fn with_password(self, password: Seq<char>) -> EngineModel {
        EngineModel { current: InputSnapshot { password, ..self.current }, ..self }
    }

    /// The state with another salt text.
    pub open spec fn with_salt(self, salt: Seq<char>) -> EngineModel {
        EngineModel { current: InputSnapshot { salt, ..self.current }, ..self }
    }

    /// The state with another cost.
    pub open spec fn with_cost(self, cost: u32) -> EngineModel {
        EngineModel { current: InputSnapshot { cost, ..self.current }, ..self }
    }
}

/// What an attempt's result means to the engine: the digest, or nothing.
pub open spec fn outcome_of(result: Result<String, DigestError>) -> Option<Seq<char>> {
    match result {
        Ok(digest) => Some(digest@),
        Err(_) => None,
    }
}

impl BcryptorState {
    /// Makes an engine whose salt is the hex encoding of `entropy`, and
    /// computes its first digest.
    pub fn seeded(entropy: [u8; 16]) -> (out: BcryptorState)
        ensures
            out@ == EngineModel::started(entropy@),
            out@.fresh(),
            out@.consistent(),
    {
        let mut out = BcryptorState {
            current: BcryptorStateInput {
                cost: INITIAL_COST,
                value: String::new(),
                salt: hex(entropy.as_slice()),
            },
            last_computed: BcryptorStateInput {
                cost: SENTINEL_COST,
                value: String::new(),
                salt: String::new(),
            },
            last_result: String::new(),
            currently_valid: true,
        };
        proof {
            lemma_first_refresh(entropy@);
        }
        out.refresh();
        out
    }

    /// Makes an engine with a salt drawn at random. Fails only when no random
    /// bytes can be had.
    pub fn new() -> (res: Result<BcryptorState, EntropyUnavailable>)
        ensures
            res matches Ok(out) ==> exists|entropy: Seq<u8>|
                entropy.len() == SALT_LEN && out@ == #[trigger] EngineModel::started(entropy),
            res matches Ok(out) ==> out@.is_valid && out@.fresh() && out@.consistent(),
    {
        BcryptorState::from_entropy(random_salt())
    }

    /// Makes an engine of what drawing the random salt gave: the engine seeded
    /// with the bytes that were drawn, or none when no bytes could be had. A
    /// failed draw is never made up for with bytes of the engine's own.
    pub fn from_entropy(drawn: Result<[u8; 16], getrandom::Error>) -> (res: Result<
        BcryptorState,
        EntropyUnavailable,
    >)
        ensures
            drawn matches Ok(entropy) ==> (res matches Ok(out) && out@ == EngineModel::started(
                entropy@,
            )),
            drawn is Err ==> res == Err::<BcryptorState, EntropyUnavailable>(EntropyUnavailable),
            res matches Ok(out) ==> out@.is_valid && out@.fresh() && out@.consistent(),
    {
        match drawn {
            Ok(entropy) => Ok(BcryptorState::seeded(entropy)),
            Err(_) => Err(EntropyUnavailable),
        }
    }

    /// Brings the digest up to date: does nothing when the input is the one
    /// computed last, else attempts the computation and records how it ended.
    pub fn refresh(&mut self)
        ensures
            final(self)@ == old(self)@.refreshed(),
            old(self)@.consistent() ==> final(self)@.consistent(),
    {
        if self.last_computed != self.current {
            let outcome = self.current.hash();
            self.record(outcome);
        }
    }

    /// Records how an attempt on the current input ended. A digest goes on
    /// display and the current input becomes the one computed last; a failure
    /// leaves both alone. Either way the validity flag tells which it was.
    pub fn record(&mut self, outcome: Result<String, DigestError>)
        ensures
            final(self)@ == old(self)@.recorded(outcome_of(outcome)),
            old(self)@.consistent() && (outcome is Ok ==> outcome_of(outcome) == old(
                self,
            )@.current.digest()) ==> final(self)@.consistent(),
    {
        match outcome {
            Ok(digest) => {
                self.last_result = digest;
                self.last_computed = self.current.clone();
                self.currently_valid = true;
            },
            Err(_) => {
                self.currently_valid = false;
            },
        }
    }

    /// Replaces the password. Nothing is computed.
    pub fn set_value(&mut self, value: String)
        ensures
            final(self)@ == old(self)@.with_password(value@),
            old(self)@.consistent() ==> final(self)@.consistent(),
    {
        self.current.value = value;
    }

    /// Replaces the salt text. Nothing is checked or computed.
    pub fn set_salt(&mut self, salt: String)
        ensures
            final(self)@ == old(self)@.with_salt(salt@),
            old(self)@.consistent() ==> final(self)@.consistent(),
    {
        self.current.salt = salt;
    }

    /// Replaces the cost. Nothing is checked or computed.
    pub fn set_cost(&mut self, cost: u32)
        ensures
            final(self)@ == old(self)@.with_cost(cost),
            old(self)@.consistent() ==> final(self)@.consistent(),
    {
        self.current.cost = cost;
    }

    /// The input as it stands.
    pub fn current(&self) -> (input: &BcryptorStateInput)
        ensures
            input@ == self@.current,
    {
        &self.current
    }

    /// The input for which the digest on display was computed.
    pub fn last_computed(&self) -> (input: &BcryptorStateInput)
        ensures
            input@ == self@.last_computed,
    {
        &self.last_computed
    }

    /// The digest on display.
    pub fn last_result(&self) -> (digest: &str)
        ensures
            digest@ == self@.last_digest,
    {
        self.last_result.as_str()
    }

    /// Whether the latest attempt gave a digest.
    pub fn currently_valid(&self) -> (valid: bool)
        ensures
            valid == self@.is_valid,
    {
        self.currently_valid
    }
}

/// A newly made engine is never fresh, whatever its salt text is, so its first
/// refresh attempts the computation.
pub proof fn lemma_first_refresh_attempts(salt: Seq<char>)
    ensures
        !EngineModel::initial(salt).fresh(),
        EngineModel::initial(salt).refreshed() == EngineModel::initial(salt).recorded(
            EngineModel::initial(salt).current.digest(),
        ),
{
}

/// With the hex encoding of sixteen bytes as its salt text, a newly made
/// engine's first refresh succeeds and displays the digest of the empty
/// password under those bytes.
pub proof fn lemma_first_refresh(entropy: Seq<u8>)
    requires
        entropy.len() == SALT_LEN,
    ensures
        EngineModel::initial(hex_text(entropy)).refreshed() == EngineModel::started(entropy),
        EngineModel::started(entropy).fresh(),
        EngineModel::started(entropy).consistent(),
{
    lemma_resolve_hex_of_raw(entropy);
}

/// Refreshing twice is refreshing once: the second refresh changes nothing.
pub proof fn lemma_refresh_idempotent(state: EngineModel)
    ensures
        state.refreshed().refreshed() == state.refreshed(),
{
}

/// A refresh keeps the digest on display in step with the input computed last.
pub proof fn lemma_refresh_keeps_consistent(state: EngineModel)
    requires
        state.consistent(),
    ensures
        state.refreshed().consistent(),
{
}

/// Changing the input touches neither the digest nor what was computed last.
pub proof fn lemma_input_change_keeps_consistent(
    state: EngineModel,
    password: Seq<char>,
    salt: Seq<char>,
    cost: u32,
)
    requires
        state.consistent(),
    ensures
        state.with_password(password).consistent(),
        state.with_salt(salt).consistent(),
        state.with_cost(cost).consistent(),
{
}

/// In a fresh and consistent state the input as it stands has a digest, the
/// one on display: its salt text is well-formed and its cost is allowed.
pub proof fn lemma_fresh_input_has_digest(state: EngineModel)
    requires
        state.consistent(),
        state.fresh(),
    ensures
        state.current.digest() == Some(state.last_digest),
        state.current.raw_salt() is Some,
        cost_allowed(state.current.cost),
{
}

/// A bad salt leaves the digest on display: from a fresh state, a refresh after
/// the salt text was changed to a malformed one clears the validity flag and
/// keeps the digest and the input it was computed for. The state is then
/// stale.
pub proof fn lemma_stale_on_failure(state: EngineModel, salt: Seq<char>)
    requires
        state.fresh(),
        salt != state.current.salt,
        resolve(encode_utf8(salt)) is None,
    ensures
        !state.with_salt(salt).refreshed().is_valid,
        state.with_salt(salt).refreshed().last_digest == state.last_digest,
        state.with_salt(salt).refreshed().last_computed == state.last_computed,
        !state.with_salt(salt).refreshed().fresh(),
{
    assert(state.with_salt(salt).current.salt != state.with_salt(salt).last_computed.salt);
}

/// In a fresh and consistent state every malformed salt text is a change of
/// the salt, so the law above holds of each of them.
pub proof fn lemma_stale_on_any_bad_salt(state: EngineModel, salt: Seq<char>)
    requires
        state.consistent(),
        state.fresh(),
        resolve(encode_utf8(salt)) is None,
    ensures
        salt != state.current.salt,
        !state.with_salt(salt).refreshed().is_valid,
        state.with_salt(salt).refreshed().last_digest == state.last_digest,
        state.with_salt(salt).refreshed().consistent(),
{
    lemma_fresh_input_has_digest(state);
    lemma_stale_on_failure(state, salt);
}

/// A stale input that has a digest gets it: the refresh sets the validity
/// flag, displays that digest and leaves the state fresh.
pub proof fn lemma_refresh_succeeds(state: EngineModel)
    requires
        !state.fresh(),
        state.current.digest() is Some,
    ensures
        state.refreshed().is_valid,
        state.refreshed().fresh(),
        state.refreshed().current == state.current,
        Some(state.refreshed().last_digest) == state.current.digest(),
{
}

/// A stale input that has no digest changes nothing but the validity flag,
/// which is cleared; the state stays stale, so the next refresh tries again.
pub proof fn lemma_refresh_fails(state: EngineModel)
    requires
        !state.fresh(),
        state.current.digest() is None,
    ensures
        state.refreshed() == (EngineModel { is_valid: false, ..state }),
        !state.refreshed().fresh(),
{
}

/// A good salt recovers. Take a fresh state, replace the salt text by a
/// malformed one and refresh, then replace it by a well-formed one and refresh
/// again: the validity flag is set and the digest of the input with the new
/// salt is on display.
///
/// The new salt text must differ from the one the state was fresh with. With
/// that very text the input is again the one computed last, the refresh does
/// nothing, and the flag stays cleared.
pub proof fn lemma_recovery(state: EngineModel, bad: Seq<char>, good: Seq<char>)
    requires
        state.consistent(),
        state.fresh(),
        resolve(encode_utf8(bad)) is None,
        resolve(encode_utf8(good)) is Some,
        good != state.current.salt,
    ensures
        ({
            let failed = state.with_salt(bad).refreshed();
            let recovered = failed.with_salt(good).refreshed();
            &&& !failed.is_valid
            &&& recovered.is_valid
            &&& recovered.fresh()
            &&& recovered.current == state.with_salt(good).current
            &&& recovered.last_digest == bcrypt_digest(
                state.current.password,
                state.current.cost,
                resolve(encode_utf8(good))->0,
            )
        }),
{
    lemma_stale_on_any_bad_salt(state, bad);
    let failed = state.with_salt(bad).refreshed();
    let retry = failed.with_salt(good);
    assert(retry.current.salt != retry.last_computed.salt);
    lemma_refresh_succeeds(retry);
}

} // verus!
