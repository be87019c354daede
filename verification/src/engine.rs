//! The distribution contract: orchestrates the stage registry, the claim
//! ledger and proof verification.
//!
//! The owner publishes hex-encoded Merkle roots, one per stage; any caller
//! may claim with a proof.  A claim is checked in this order: replay
//! (AlreadyClaimed), proof shape (InvalidFormat), stage existence (NotFound),
//! proof validity (InvalidProof).  Every failure leaves the state exactly as
//! it was; a success marks the pair claimed and emits one transfer request.

use vstd::prelude::*;

use crate::bytes::{bytes_eq, clone_bytes};
use crate::hashtree::leaf_hash_of;
use crate::hexroot::{check_merkle_root, decode_hex_root, hex_decoded, is_hex_root};
use crate::ledger::{pairs_contain, ClaimLedger};
use crate::membership::{check_proof_format, fold_root, proof_well_formed, verify};
use crate::registry::StageRegistry;

verus! {

/// Immutable configuration, set once at instantiation.
#[derive(Clone, Debug)]
pub struct Config {
    /// The only address allowed to publish roots.
    pub owner: Vec<u8>,
    /// The reward-token address; absent in deployments that only attest
    /// allocations instead of requesting transfers.
    pub token: Option<Vec<u8>>,
}

/// The error taxonomy.  Every failing operation returns one of these and
/// leaves the contract state unchanged.
#[derive(Clone, Copy, Debug, PartialEq, Eq, Structural)]
pub enum DistError {
    /// The caller is not the owner on an owner-gated operation.
    Unauthorized,
    /// A malformed hex root or a proof element that is not 32 bytes.
    InvalidFormat,
    /// The stage has no published root.
    NotFound,
    /// A replay: the pair (address, stage) is already redeemed.
    AlreadyClaimed,
    /// The recomputed root does not match the stored root.
    InvalidProof,
}

/// The outbound effect of a successful claim: a request to transfer `amount`
/// of `token` to `recipient`.  With no configured token the allocation is
/// only attested; settlement happens out of band.
#[derive(Clone, Debug, PartialEq, Eq)]
pub struct ClaimResponse {
    pub recipient: Vec<u8>,
    pub amount: u128,
    pub token: Option<Vec<u8>>,
}

/// The whole contract state: configuration, stage registry and claim ledger.
pub struct Distribution {
    config: Config,
    registry: StageRegistry,
    ledger: ClaimLedger,
}

/// One inbound state-changing operation.
#[derive(Clone, Debug)]
pub enum HandleMsg {
    /// Publish a hex-encoded Merkle root for a new stage.
    MerkleRoot { node: Vec<u8> },
    /// Redeem one allocation under a proof.
    Claim { stage_index: u8, amount: u128, proof: Vec<Vec<u8>> },
}

/// The effect of a successful state-changing operation.
#[derive(Clone, Debug, PartialEq, Eq)]
pub enum HandleResponse {
    /// A root was published; `stage_index` is the new stage.
    Registered { stage_index: u8 },
    /// An allocation was redeemed.
    Claimed(ClaimResponse),
}

/// One read-only query.
#[derive(Clone, Debug)]
pub enum QueryMsg {
    Config {},
    StageIndex {},
    MerkleRoot { stage_index: u8 },
    IsClaimed { stage_index: u8, address: Vec<u8> },
}

/// The answer to a query.
#[derive(Clone, Debug, PartialEq, Eq)]
pub enum QueryAnswer {
    Config { owner: Vec<u8>, token: Option<Vec<u8>> },
    StageIndex { stage_index: u8 },
    MerkleRoot { merkle_root: Vec<u8> },
    IsClaimed { claimed: bool },
}

/// The two states hold the same owner and token.
pub open spec fn same_config(a: Distribution, b: Distribution) -> bool {
    a.owner_of() == b.owner_of() && a.token_of() == b.token_of()
}

/// The two states hold the same stage counter and published roots.
pub open spec fn same_stages(a: Distribution, b: Distribution) -> bool {
    a.stage() == b.stage() && a.roots_seq() == b.roots_seq()
}

/// The two states mark exactly the same pairs as claimed.
pub open spec fn same_claims(a: Distribution, b: Distribution) -> bool {
    forall|ad: Seq<u8>, s: u8| a.claimed(ad, s) == b.claimed(ad, s)
}

impl Distribution {
    /// The configured owner address.
    pub closed spec fn owner_of(self) -> Seq<u8> {
        self.config.owner@
    }

    /// The configured reward-token address, if any.
    pub closed spec fn token_of(self) -> Option<Seq<u8>> {
        self.config.token.deep_view()
    }

    /// The current stage counter.
    pub closed spec fn stage(self) -> int {
        self.registry.stage()
    }

    /// The published hex-encoded roots, in stage order.
    pub closed spec fn roots_seq(self) -> Seq<Seq<u8>> {
        self.registry.roots_seq()
    }

    /// The pair `(address, stage_index)` has been redeemed.
    pub closed spec fn claimed(self, address: Seq<u8>, stage_index: u8) -> bool {
        self.ledger.claimed(address, stage_index)
    }

    /// Well-formedness: one validated hex root per published stage.
    pub closed spec fn wf(self) -> bool {
        self.registry.wf()
    }

    /// A root has been published for `stage_index`.
    pub open spec fn has_stage(self, stage_index: u8) -> bool {
        1 <= stage_index as int <= self.stage()
    }

    /// The hex-encoded root published for `stage_index`.
    pub open spec fn root_hex_of(self, stage_index: u8) -> Seq<u8> {
        self.roots_seq()[stage_index as int - 1]
    }

    /// The raw 32-byte root published for `stage_index`.
    pub open spec fn root_of(self, stage_index: u8) -> Seq<u8> {
        hex_decoded(self.root_hex_of(stage_index))
    }

    /// The proof reproduces the stored root for this leaf.
    pub open spec fn proof_matches(
        self,
        sender: Seq<u8>,
        stage_index: u8,
        amount: u128,
        proof: Seq<Seq<u8>>,
    ) -> bool {
        self.root_of(stage_index) == fold_root(leaf_hash_of(sender, amount), proof)
    }

    /// A publication by `sender` of `merkle_root` succeeds.
    pub open spec fn register_ok(self, sender: Seq<u8>, merkle_root: Seq<u8>) -> bool {
        sender == self.owner_of() && is_hex_root(merkle_root)
    }

    /// The error a failing publication returns: authorization is checked
    /// before the root's format.
    pub open spec fn register_err(self, sender: Seq<u8>, merkle_root: Seq<u8>) -> DistError {
        if sender != self.owner_of() {
            DistError::Unauthorized
        } else {
            DistError::InvalidFormat
        }
    }

    /// A claim by `sender` for `(stage_index, amount)` under `proof`
    /// succeeds.
    pub open spec fn claim_ok(
        self,
        sender: Seq<u8>,
        stage_index: u8,
        amount: u128,
        proof: Seq<Seq<u8>>,
    ) -> bool {
        &&& !self.claimed(sender, stage_index)
        &&& proof_well_formed(proof)
        &&& self.has_stage(stage_index)
        &&& self.proof_matches(sender, stage_index, amount, proof)
    }

    /// The error a failing claim returns, in checking order: replay, proof
    /// shape, stage existence, proof validity.
    pub open spec fn claim_err(
        self,
        sender: Seq<u8>,
        stage_index: u8,
        amount: u128,
        proof: Seq<Seq<u8>>,
    ) -> DistError {
        if self.claimed(sender, stage_index) {
            DistError::AlreadyClaimed
        } else if !proof_well_formed(proof) {
            DistError::InvalidFormat
        } else if !self.has_stage(stage_index) {
            DistError::NotFound
        } else {
            DistError::InvalidProof
        }
    }

    /// Instantiates the contract: records the configuration, sets the stage
    /// counter to 0, and leaves nothing claimed.
    pub fn init(owner: Vec<u8>, token: Option<Vec<u8>>) -> (r: Distribution)
        ensures
            r.wf(),
            r.owner_of() == owner@,
            r.token_of() == token.deep_view(),
            r.stage() == 0,
            r.roots_seq() == Seq::<Seq<u8>>::empty(),
            forall|a: Seq<u8>, s: u8| !r.claimed(a, s),
    {
        Distribution {
            config: Config { owner, token },
            registry: StageRegistry::new(),
            ledger: ClaimLedger::new(),
        }
    }

    /// Rebuilds a contract state from plain values, as an external store
    /// hands them back: the published roots in stage order and the redeemed
    /// `(address, stage)` pairs.  Fails exactly when a root is not
    /// well-formed hex or more than 255 roots are handed in.
    pub fn from_parts(
        owner: Vec<u8>,
        token: Option<Vec<u8>>,
        roots: Vec<Vec<u8>>,
        claims: Vec<(Vec<u8>, u8)>,
    ) -> (r: Option<Distribution>)
        ensures
            (roots.deep_view().len() <= 255 && forall|k: int|
                0 <= k < roots.deep_view().len() ==> is_hex_root(
                    #[trigger] roots.deep_view()[k],
                )) <==> r is Some,
            r matches Some(d) ==> d.wf() && d.owner_of() == owner@ && d.token_of()
                == token.deep_view() && d.stage() == roots.deep_view().len() && d.roots_seq()
                == roots.deep_view() && forall|a: Seq<u8>, s: u8|
                #[trigger] d.claimed(a, s) == pairs_contain(claims@, a, s),
    {
        match StageRegistry::from_roots(roots) {
            None => None,
            Some(registry) => Some(
                Distribution {
                    config: Config { owner, token },
                    registry,
                    ledger: ClaimLedger::from_pairs(claims),
                },
            ),
        }
    }

    /// The caller is the configured owner; anyone else gets Unauthorized.
    fn is_authorized(&self, sender: &Vec<u8>) -> (r: Result<(), DistError>)
        ensures
            r is Ok <==> sender@ == self.owner_of(),
            r is Err ==> r == Err::<(), DistError>(DistError::Unauthorized),
    {
        if bytes_eq(sender, &self.config.owner) {
            Ok(())
        } else {
            Err(DistError::Unauthorized)
        }
    }

    /// Publishes a Merkle root for a new stage.  Only the owner may publish
    /// (Unauthorized otherwise); the root must be 64 ASCII hex digits
    /// (InvalidFormat otherwise).  On success the stage counter advances by
    /// exactly 1, the root is appended, and the new stage number is returned;
    /// on failure nothing changes.
    pub fn register_merkle_root(&mut self, sender: &Vec<u8>, merkle_root: Vec<u8>) -> (r: Result<
        u8,
        DistError,
    >)
        requires
            old(self).wf(),
            old(self).stage() < 255,
        ensures
            final(self).wf(),
            same_config(*final(self), *old(self)),
            same_claims(*final(self), *old(self)),
            !old(self).register_ok(sender@, merkle_root@) ==> r == Err::<u8, DistError>(
                old(self).register_err(sender@, merkle_root@),
            ) && same_stages(*final(self), *old(self)),
            old(self).register_ok(sender@, merkle_root@) ==> r == Ok::<u8, DistError>(
                (old(self).stage() + 1) as u8,
            ) && final(self).stage() == old(self).stage() + 1 && final(self).roots_seq() == old(
                self,
            ).roots_seq().push(merkle_root@),
    {
        match self.is_authorized(sender) {
            Err(e) => {
                return Err(e);
            },
            Ok(()) => {},
        }
        if !check_merkle_root(&merkle_root) {
            return Err(DistError::InvalidFormat);
        }
        let new_stage = self.registry.publish(merkle_root);
        Ok(new_stage)
    }

    /// Redeems one allocation.  The checks run in this order: a replayed
    /// pair fails AlreadyClaimed; a proof with an element that is not 32
    /// bytes fails InvalidFormat; a stage without a published root fails
    /// NotFound; a proof that does not reproduce the stored root fails
    /// InvalidProof.  On success the pair is marked claimed and exactly one
    /// transfer request for `amount` to the caller is returned; on failure
    /// nothing changes.
    pub fn claim(
        &mut self,
        sender: &Vec<u8>,
        stage_index: u8,
        amount: u128,
        proof: &Vec<Vec<u8>>,
    ) -> (r: Result<ClaimResponse, DistError>)
        requires
            old(self).wf(),
        ensures
            final(self).wf(),
            same_config(*final(self), *old(self)),
            same_stages(*final(self), *old(self)),
            !old(self).claim_ok(sender@, stage_index, amount, proof.deep_view()) ==> (r
                matches Err(e) && e == old(self).claim_err(
                sender@,
                stage_index,
                amount,
                proof.deep_view(),
            ) && same_claims(*final(self), *old(self))),
            old(self).claim_ok(sender@, stage_index, amount, proof.deep_view()) ==> (r matches
                Ok(resp) && resp.recipient@ == sender@ && resp.amount == amount
                && resp.token.deep_view() == old(self).token_of()) && forall|a: Seq<u8>, s: u8|
                #[trigger] final(self).claimed(a, s) == (old(self).claimed(a, s) || (a == sender@
                    && s == stage_index)),
    {
        if self.ledger.read_claimed(sender, stage_index) {
            return Err(DistError::AlreadyClaimed);
        }
        if !check_proof_format(proof) {
            return Err(DistError::InvalidFormat);
        }
        let root_hex = match self.registry.read_merkle_root(stage_index) {
            None => {
                return Err(DistError::NotFound);
            },
            Some(v) => v,
        };
        let root = decode_hex_root(&root_hex);
        if !verify(&root, sender, amount, proof) {
            return Err(DistError::InvalidProof);
        }
        self.ledger.store_claimed(sender, stage_index);
        let token = match &self.config.token {
            None => None,
            Some(t) => Some(clone_bytes(t)),
        };
        Ok(ClaimResponse { recipient: clone_bytes(sender), amount, token })
    }

    /// The stored configuration.
    pub fn read_config(&self) -> (r: &Config)
        ensures
            r.owner@ == self.owner_of(),
            r.token.deep_view() == self.token_of(),
    {
        &self.config
    }

    /// The current stage counter.
    pub fn read_stage_index(&self) -> (r: u8)
        ensures
            r as int == self.stage(),
    {
        self.registry.read_stage_index()
    }

    /// The hex-encoded root published for `stage_index`, or NotFound when
    /// that stage has none (stage 0 never has one).
    pub fn read_merkle_root(&self, stage_index: u8) -> (r: Result<Vec<u8>, DistError>)
        requires
            self.wf(),
        ensures
            self.has_stage(stage_index) ==> (r matches Ok(v) && v@ == self.root_hex_of(
                stage_index,
            )),
            !self.has_stage(stage_index) ==> r == Err::<Vec<u8>, DistError>(DistError::NotFound),
    {
        match self.registry.read_merkle_root(stage_index) {
            Some(v) => Ok(v),
            None => Err(DistError::NotFound),
        }
    }

    /// Whether `(address, stage_index)` has been redeemed; false for any
    /// pair never claimed.
    pub fn read_claimed(&self, address: &Vec<u8>, stage_index: u8) -> (r: bool)
        ensures
            r == self.claimed(address@, stage_index),
    {
        self.ledger.read_claimed(address, stage_index)
    }

    /// The published hex roots in stage order, as an external store would
    /// persist them.
    pub fn merkle_roots(&self) -> (r: &Vec<Vec<u8>>)
        ensures
            r.deep_view() == self.roots_seq(),
    {
        self.registry.roots()
    }

    /// The redeemed `(address, stage)` pairs, as an external store would
    /// persist them: exactly the claimed ones.
    pub fn claim_pairs(&self) -> (r: &Vec<(Vec<u8>, u8)>)
        ensures
            forall|a: Seq<u8>, s: u8| #[trigger] self.claimed(a, s) == pairs_contain(r@, a, s),
    {
        self.ledger.pairs()
    }

    /// Dispatches one inbound operation, as the message-level surface hands
    /// it in.
    pub fn handle(&mut self, sender: &Vec<u8>, msg: HandleMsg) -> (r: Result<
        HandleResponse,
        DistError,
    >)
        requires
            old(self).wf(),
            old(self).stage() < 255,
        ensures
            final(self).wf(),
            same_config(*final(self), *old(self)),
            msg matches HandleMsg::MerkleRoot { node } ==> ({
                &&& same_claims(*final(self), *old(self))
                &&& !old(self).register_ok(sender@, node@) ==> (r == Err::<
                    HandleResponse,
                    DistError,
                >(old(self).register_err(sender@, node@)) && same_stages(
                    *final(self),
                    *old(self),
                ))
                &&& old(self).register_ok(sender@, node@) ==> (r == Ok::<
                    HandleResponse,
                    DistError,
                >(
                    (HandleResponse::Registered { stage_index: ((old(self).stage() + 1) as u8) }),
                ) && final(self).stage() == old(self).stage() + 1 && final(self).roots_seq()
                    == old(self).roots_seq().push(node@))
            }),
            msg matches HandleMsg::Claim { stage_index, amount, proof } ==> ({
                &&& same_stages(*final(self), *old(self))
                &&& !old(self).claim_ok(sender@, stage_index, amount, proof.deep_view()) ==> (r
                    matches Err(e) && e == old(self).claim_err(
                    sender@,
                    stage_index,
                    amount,
                    proof.deep_view(),
                ) && same_claims(*final(self), *old(self)))
                &&& old(self).claim_ok(sender@, stage_index, amount, proof.deep_view()) ==> ((r
                    matches Ok(a) && a matches HandleResponse::Claimed(resp) && resp.recipient@
                    == sender@ && resp.amount == amount && resp.token.deep_view() == old(
                    self,
                ).token_of()) && forall|a: Seq<u8>, s: u8|
                    #[trigger] final(self).claimed(a, s) == (old(self).claimed(a, s) || (a
                        == sender@ && s == stage_index)))
            }),
    {
        match msg {
            HandleMsg::MerkleRoot { node } => {
                match self.register_merkle_root(sender, node) {
                    Ok(stage_index) => Ok(HandleResponse::Registered { stage_index }),
                    Err(e) => Err(e),
                }
            },
            HandleMsg::Claim { stage_index, amount, proof } => {
                match self.claim(sender, stage_index, amount, &proof) {
                    Ok(resp) => Ok(HandleResponse::Claimed(resp)),
                    Err(e) => Err(e),
                }
            },
        }
    }

    /// Answers one read-only query; no query changes any state.
    pub fn query(&self, msg: QueryMsg) -> (r: Result<QueryAnswer, DistError>)
        requires
            self.wf(),
        ensures
            msg is Config ==> (r matches Ok(a) && a matches QueryAnswer::Config { owner, token }
                && owner@ == self.owner_of() && token.deep_view() == self.token_of()),
            msg is StageIndex ==> (r matches Ok(a) && a matches QueryAnswer::StageIndex {
                stage_index } && stage_index as int == self.stage()),
            msg matches QueryMsg::MerkleRoot { stage_index } ==> ({
                &&& self.has_stage(stage_index) ==> (r matches Ok(a) && a
                    matches QueryAnswer::MerkleRoot { merkle_root } && merkle_root@
                    == self.root_hex_of(stage_index))
                &&& !self.has_stage(stage_index) ==> r == Err::<QueryAnswer, DistError>(
                    DistError::NotFound,
                )
            }),
            msg matches QueryMsg::IsClaimed { stage_index, address } ==> (r matches Ok(a) && a
                matches QueryAnswer::IsClaimed { claimed } && claimed == self.claimed(
                address@,
                stage_index,
            )),
    {
        match msg {
            QueryMsg::Config {} => {
                let token = match &self.config.token {
                    None => None,
                    Some(t) => Some(clone_bytes(t)),
                };
                Ok(QueryAnswer::Config { owner: clone_bytes(&self.config.owner), token })
            },
            QueryMsg::StageIndex {} => {
                Ok(QueryAnswer::StageIndex { stage_index: self.read_stage_index() })
            },
            QueryMsg::MerkleRoot { stage_index } => {
                match self.read_merkle_root(stage_index) {
                    Ok(merkle_root) => Ok(QueryAnswer::MerkleRoot { merkle_root }),
                    Err(e) => Err(e),
                }
            },
            QueryMsg::IsClaimed { stage_index, address } => {
                Ok(
                    QueryAnswer::IsClaimed {
                        claimed: self.read_claimed(&address, stage_index),
                    },
                )
            },
        }
    }
}

/// Replay protection: once a claim for `(sender, stage_index)` has gone
/// through, any further claim for that pair fails with AlreadyClaimed,
/// whatever amount or proof it carries — so no second transfer request is
/// ever emitted for the pair.
pub proof fn lemma_claim_replay(
    pre: Distribution,
    post: Distribution,
    sender: Seq<u8>,
    stage_index: u8,
    amount: u128,
    proof: Seq<Seq<u8>>,
    amount2: u128,
    proof2: Seq<Seq<u8>>,
)
    requires
        pre.claim_ok(sender, stage_index, amount, proof),
        forall|a: Seq<u8>, s: u8|
            #[trigger] post.claimed(a, s) == (pre.claimed(a, s) || (a == sender && s
                == stage_index)),
    ensures
        !post.claim_ok(sender, stage_index, amount2, proof2),
        post.claim_err(sender, stage_index, amount2, proof2) == DistError::AlreadyClaimed,
{
    assert(post.claimed(sender, stage_index));
}

/// Monotonic stages: along a chain of states in which every step is one
/// successful publication (the stage counter advances by exactly 1, as the
/// ensures of `register_merkle_root` states), a contract that starts at
/// stage 0 reaches stage `k` after the `k`-th publication — the published
/// stage numbers are 1, 2, ... in order.
pub proof fn lemma_publish_stages(states: Seq<Distribution>)
    requires
        states.len() >= 1,
        states[0].stage() == 0,
        forall|k: int|
            0 <= k < states.len() - 1 ==> #[trigger] states[k + 1].stage() == states[k].stage()
                + 1,
    ensures
        forall|k: int| 0 <= k < states.len() ==> #[trigger] states[k].stage() == k,
{
    assert forall|k: int| 0 <= k < states.len() implies #[trigger] states[k].stage() == k by {
        lemma_stage_at(states, k);
    }
}

proof fn lemma_stage_at(states: Seq<Distribution>, k: int)
    requires
        0 <= k < states.len(),
        states[0].stage() == 0,
        forall|j: int|
            0 <= j < states.len() - 1 ==> #[trigger] states[j + 1].stage() == states[j].stage()
                + 1,
    ensures
        states[k].stage() == k,
    decreases k,
{
    if k > 0 {
        lemma_stage_at(states, k - 1);
        assert(states[(k - 1) + 1].stage() == states[k - 1].stage() + 1);
    }
}

} // verus!
