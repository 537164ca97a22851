//! The deterministic per-account ledger: wallet histories, balances, and the
//! two authoritative mutations (committing an agreed debit, applying an
//! agreed credit), together with the store-cost curve and the partition of a
//! ledger when a section splits.
//!
//! A wallet's balance is a pure function of its ordered history of agreement
//! proofs: the sum of what the history credits the owner minus the sum of
//! what it debits. Well-formedness keeps every intermediate balance inside
//! `0..=u64::MAX`, numbers debits gaplessly from zero, and keeps credit ids
//! unique, which is what makes retries and replays safe.

use vstd::prelude::*;

use crate::types::{
    AgreementProof, CreditAgreementProof, Error, Prefix, PublicKey, Token, TransferAgreementProof,
};

verus! {

/// What `p` credits to the wallet owned by `k`: the amount of a credit proof
/// addressed to `k`, or of a transfer proof whose receiving side is `k`.
pub open spec fn credit_of(p: AgreementProof, k: PublicKey) -> int {
    match p {
        AgreementProof::Credit(c) => {
            if c.credit.recipient == k {
                c.credit.amount as int
            } else {
                0
            }
        },
        AgreementProof::Transfer(t) => {
            if t.signed_transfer.transfer.to == k {
                t.signed_transfer.transfer.amount as int
            } else {
                0
            }
        },
    }
}

/// What `p` debits from the wallet owned by `k`: the amount of a transfer
/// proof whose debited side is `k`.
pub open spec fn debit_of(p: AgreementProof, k: PublicKey) -> int {
    match p {
        AgreementProof::Credit(_) => 0,
        AgreementProof::Transfer(t) => {
            if t.signed_transfer.transfer.from == k {
                t.signed_transfer.transfer.amount as int
            } else {
                0
            }
        },
    }
}

/// Whether `p` belongs in the history of the wallet owned by `k` at all.
pub open spec fn concerns(p: AgreementProof, k: PublicKey) -> bool {
    match p {
        AgreementProof::Credit(c) => c.credit.recipient == k,
        AgreementProof::Transfer(t) => t.signed_transfer.transfer.from == k
            || t.signed_transfer.transfer.to == k,
    }
}

/// Whether `p` is a debit entry of the wallet owned by `k`.
pub open spec fn is_debit(p: AgreementProof, k: PublicKey) -> bool {
    p matches AgreementProof::Transfer(t) && t.signed_transfer.transfer.from == k
}

/// The sequence number a transfer proof carries.
pub open spec fn proof_seq(p: AgreementProof) -> u64
    recommends
        p is Transfer,
{
    p->Transfer_0.signed_transfer.transfer.seq
}

/// Balance after the whole history `h`: credits minus debits, entry by entry.
pub open spec fn balance_in(h: Seq<AgreementProof>, k: PublicKey) -> int
    decreases h.len(),
{
    if h.len() == 0 {
        0
    } else {
        balance_in(h.drop_last(), k) + credit_of(h.last(), k) - debit_of(h.last(), k)
    }
}

/// Sum of everything `h` credits to `k`.
pub open spec fn credit_sum(h: Seq<AgreementProof>, k: PublicKey) -> int
    decreases h.len(),
{
    if h.len() == 0 {
        0
    } else {
        credit_sum(h.drop_last(), k) + credit_of(h.last(), k)
    }
}

/// Sum of everything `h` debits from `k`.
pub open spec fn debit_sum(h: Seq<AgreementProof>, k: PublicKey) -> int
    decreases h.len(),
{
    if h.len() == 0 {
        0
    } else {
        debit_sum(h.drop_last(), k) + debit_of(h.last(), k)
    }
}

/// How many entries of `h` debit the wallet owned by `k`.
pub open spec fn debit_count(h: Seq<AgreementProof>, k: PublicKey) -> nat
    decreases h.len(),
{
    if h.len() == 0 {
        0
    } else {
        debit_count(h.drop_last(), k) + if is_debit(h.last(), k) {
            1nat
        } else {
            0nat
        }
    }
}

/// Whether some credit entry of `h` carries the credit id `id`.
pub open spec fn has_credit_id(h: Seq<AgreementProof>, id: u64) -> bool {
    exists|i: int|
        #![trigger h[i]]
        {
            &&& 0 <= i < h.len()
            &&& h[i] matches AgreementProof::Credit(c)
            &&& c.credit.id == id
        }
}

/// Whether `p` is one of the entries of `h`.
pub open spec fn has_entry(h: Seq<AgreementProof>, p: AgreementProof) -> bool {
    exists|i: int| 0 <= i < h.len() && h[i] == p
}

/// Well-formedness of one wallet's history, owned by `k`:
/// every entry concerns `k`; every intermediate balance stays inside
/// `0..=u64::MAX`; the n-th debit carries sequence number n; credit entries
/// carry pairwise distinct credit ids; and the sender signature of every
/// debit is the debited key's own.
pub open spec fn wf_history(h: Seq<AgreementProof>, k: PublicKey) -> bool
    decreases h.len(),
{
    h.len() == 0 || {
        let prev = h.drop_last();
        let last = h.last();
        &&& wf_history(prev, k)
        &&& concerns(last, k)
        &&& 0 <= balance_in(h, k) <= u64::MAX
        &&& (is_debit(last, k) ==> proof_seq(last) == debit_count(prev, k))
        &&& (last matches AgreementProof::Credit(c) ==> !has_credit_id(prev, c.credit.id))
        &&& (last matches AgreementProof::Transfer(t) ==> t.signed_transfer.sig.signer
            == t.signed_transfer.transfer.from)
    }
}

/// The ordered sequence of agreement proofs committed for one account;
/// the account's balance and sequence numbering are functions of it.
#[derive(Clone, PartialEq, Eq, Debug)]
pub struct WalletHistory {
    /// The key owning the wallet.
    pub owner: PublicKey,
    /// Everything agreed for this wallet, oldest first.
    pub proofs: Vec<AgreementProof>,
}

/// Whether some wallet among `ws` is owned by `k`.
pub open spec fn has_wallet_in(ws: Seq<WalletHistory>, k: PublicKey) -> bool {
    exists|i: int| 0 <= i < ws.len() && (#[trigger] ws[i]).owner == k
}

/// Index of the wallet owned by `k` among `ws`.
pub open spec fn owner_index(ws: Seq<WalletHistory>, k: PublicKey) -> int {
    choose|i: int| 0 <= i < ws.len() && (#[trigger] ws[i]).owner == k
}

/// The history held for `k` among `ws`; a key without a wallet has the
/// empty history.
pub open spec fn history_in(ws: Seq<WalletHistory>, k: PublicKey) -> Seq<AgreementProof> {
    if has_wallet_in(ws, k) {
        ws[owner_index(ws, k)].proofs@
    } else {
        Seq::empty()
    }
}

/// No two wallets among `ws` share an owner.
pub open spec fn unique_owners(ws: Seq<WalletHistory>) -> bool {
    forall|i: int, j: int|
        0 <= i < j < ws.len() ==> (#[trigger] ws[i]).owner != (#[trigger] ws[j]).owner
}

/// With unique owners, any index holding `k`'s wallet yields `k`'s history.
pub proof fn lemma_history_at(ws: Seq<WalletHistory>, k: PublicKey, i: int)
    requires
        unique_owners(ws),
        0 <= i < ws.len(),
        ws[i].owner == k,
    ensures
        has_wallet_in(ws, k),
        owner_index(ws, k) == i,
        history_in(ws, k) == ws[i].proofs@,
{
    assert(has_wallet_in(ws, k));
    let j = owner_index(ws, k);
    assert(0 <= j < ws.len() && ws[j].owner == k);
    if i < j {
        assert(ws[i].owner != ws[j].owner);
    } else if j < i {
        assert(ws[j].owner != ws[i].owner);
    }
}

/// Deterministic state shared (by value) among the replicas of a section:
/// one wallet history per account the section manages.
#[derive(Clone, PartialEq, Eq, Debug)]
pub struct TransferLedger {
    pub wallets: Vec<WalletHistory>,
}

impl TransferLedger {
    /// The history the ledger holds for `k`.
    pub open spec fn spec_history(self, k: PublicKey) -> Seq<AgreementProof> {
        history_in(self.wallets@, k)
    }

    /// The balance the ledger holds for `k`.
    pub open spec fn spec_balance(self, k: PublicKey) -> int {
        balance_in(self.spec_history(k), k)
    }

    /// The sequence number the next debit of `k` must carry.
    pub open spec fn spec_next_seq(self, k: PublicKey) -> nat {
        debit_count(self.spec_history(k), k)
    }

    /// Whether the ledger holds a wallet for `k`.
    pub open spec fn spec_has_wallet(self, k: PublicKey) -> bool {
        has_wallet_in(self.wallets@, k)
    }

    /// Well-formedness: owners are unique and every wallet's history is
    /// well formed for its owner.
    pub open spec fn wf(self) -> bool {
        &&& unique_owners(self.wallets@)
        &&& forall|i: int|
            0 <= i < self.wallets@.len() ==> wf_history(
                (#[trigger] self.wallets@[i]).proofs@,
                self.wallets@[i].owner,
            )
    }

    /// An empty ledger: no wallet, every balance zero.
    pub fn new() -> (l: TransferLedger)
        ensures
            l.wf(),
            l.wallets@.len() == 0,
            forall|k: PublicKey| l.spec_history(k) == Seq::<AgreementProof>::empty(),
    {
        let l = TransferLedger { wallets: Vec::new() };
        assert(forall|k: PublicKey| !has_wallet_in(l.wallets@, k));
        l
    }

    /// Index of `k`'s wallet, if the ledger holds one.
    fn find_wallet(&self, k: PublicKey) -> (r: Option<usize>)
        ensures
            match r {
                Some(i) => i < self.wallets@.len() && self.wallets@[i as int].owner == k,
                None => !self.spec_has_wallet(k),
            },
    {
        let n = self.wallets.len();
        let mut i: usize = 0;
        while i < n
            invariant
                i <= n,
                n == self.wallets@.len(),
                forall|j: int| 0 <= j < i ==> (#[trigger] self.wallets@[j]).owner != k,
            decreases n - i,
        {
            if self.wallets[i].owner == k {
                return Some(i);
            }
            i += 1;
        }
        assert(!has_wallet_in(self.wallets@, k));
        None
    }
}

/// Well-formedness of a history carries to each of its prefixes.
pub proof fn lemma_wf_take(h: Seq<AgreementProof>, k: PublicKey, i: int)
    requires
        wf_history(h, k),
        0 <= i <= h.len(),
    ensures
        wf_history(h.take(i), k),
    decreases h.len(),
{
    if i == h.len() {
        assert(h.take(i) =~= h);
    } else {
        assert(h.drop_last().take(i) =~= h.take(i));
        lemma_wf_take(h.drop_last(), k, i);
    }
}

/// A well-formed history's balance lies inside `0..=u64::MAX`.
pub proof fn lemma_balance_in_bounds(h: Seq<AgreementProof>, k: PublicKey)
    requires
        wf_history(h, k),
    ensures
        0 <= balance_in(h, k) <= u64::MAX,
{
    if h.len() == 0 {
    }
}

/// Replacing wallet `i` by one with the same owner changes that owner's
/// history to the replacement's and no other key's history at all.
pub proof fn lemma_history_update(ws: Seq<WalletHistory>, i: int, w2: WalletHistory)
    requires
        unique_owners(ws),
        0 <= i < ws.len(),
        w2.owner == ws[i].owner,
    ensures
        unique_owners(ws.update(i, w2)),
        history_in(ws.update(i, w2), ws[i].owner) == w2.proofs@,
        forall|k: PublicKey|
            k != ws[i].owner ==> #[trigger] history_in(ws.update(i, w2), k) == history_in(ws, k),
{
    let ws2 = ws.update(i, w2);
    assert(forall|m: int| 0 <= m < ws.len() ==> (#[trigger] ws2[m]).owner == ws[m].owner);
    lemma_history_at(ws2, ws[i].owner, i);
    assert forall|k: PublicKey| k != ws[i].owner implies #[trigger] history_in(ws2, k)
        == history_in(ws, k) by {
        if has_wallet_in(ws, k) {
            let m = owner_index(ws, k);
            assert(0 <= m < ws.len() && ws[m].owner == k);
            lemma_history_at(ws, k, m);
            lemma_history_at(ws2, k, m);
        } else {
            assert(!has_wallet_in(ws2, k)) by {
                if has_wallet_in(ws2, k) {
                    let m = owner_index(ws2, k);
                    assert(ws[m].owner == k);
                }
            }
        }
    }
}

/// Appending a wallet for a key that had none changes that key's history to
/// the appended wallet's and no other key's history at all.
pub proof fn lemma_history_push(ws: Seq<WalletHistory>, w: WalletHistory)
    requires
        unique_owners(ws),
        !has_wallet_in(ws, w.owner),
    ensures
        unique_owners(ws.push(w)),
        history_in(ws.push(w), w.owner) == w.proofs@,
        forall|k: PublicKey|
            k != w.owner ==> #[trigger] history_in(ws.push(w), k) == history_in(ws, k),
{
    let ws2 = ws.push(w);
    assert(forall|m: int| 0 <= m < ws.len() ==> (#[trigger] ws2[m]).owner == ws[m].owner);
    assert(forall|m: int|
        0 <= m < ws.len() ==> (#[trigger] ws2[m]).owner != w.owner);
    lemma_history_at(ws2, w.owner, ws.len() as int);
    assert forall|k: PublicKey| k != w.owner implies #[trigger] history_in(ws2, k)
        == history_in(ws, k) by {
        if has_wallet_in(ws, k) {
            let m = owner_index(ws, k);
            assert(0 <= m < ws.len() && ws[m].owner == k);
            lemma_history_at(ws, k, m);
            lemma_history_at(ws2, k, m);
        } else {
            assert(!has_wallet_in(ws2, k)) by {
                if has_wallet_in(ws2, k) {
                    let m = owner_index(ws2, k);
                    if m < ws.len() {
                        assert(ws[m].owner == k);
                    }
                }
            }
        }
    }
}

/// In a well-formed history, every debit entry's sequence number lies below
/// the history's debit count: a sequence slot, once taken, is never free
/// again.
pub proof fn lemma_debit_seq_bound(h: Seq<AgreementProof>, k: PublicKey, p: AgreementProof)
    requires
        wf_history(h, k),
        has_entry(h, p),
        is_debit(p, k),
    ensures
        (proof_seq(p) as nat) < debit_count(h, k),
    decreases h.len(),
{
    let i = choose|i: int| 0 <= i < h.len() && h[i] == p;
    if i == h.len() - 1 {
        assert(h.last() == p);
    } else {
        assert(h.drop_last()[i] == p);
        assert(has_entry(h.drop_last(), p));
        lemma_debit_seq_bound(h.drop_last(), k, p);
    }
}

/// The balance of a history is exactly the sum of its credits minus the sum
/// of its debits.
pub proof fn lemma_balance_is_credits_minus_debits(h: Seq<AgreementProof>, k: PublicKey)
    ensures
        balance_in(h, k) == credit_sum(h, k) - debit_sum(h, k),
    decreases h.len(),
{
    if h.len() > 0 {
        lemma_balance_is_credits_minus_debits(h.drop_last(), k);
    }
}

/// A well-formed history never reaches a negative balance, at its end or at
/// any prefix.
pub proof fn lemma_balance_never_negative(h: Seq<AgreementProof>, k: PublicKey, i: int)
    requires
        wf_history(h, k),
        0 <= i <= h.len(),
    ensures
        0 <= balance_in(h.take(i), k) <= u64::MAX,
{
    lemma_wf_take(h, k, i);
    lemma_balance_in_bounds(h.take(i), k);
}

impl TransferLedger {
    /// Current balance of `k`: zero for a key without a wallet.
    pub fn balance(&self, k: PublicKey) -> (r: Token)
        requires
            self.wf(),
        ensures
            r as int == self.spec_balance(k),
    {
        let idx = match self.find_wallet(k) {
            Some(i) => i,
            None => {
                return 0;
            },
        };
        proof {
            lemma_history_at(self.wallets@, k, idx as int);
        }
        let ghost h = self.spec_history(k);
        let w = &self.wallets[idx];
        let n = w.proofs.len();
        let mut bal: u64 = 0;
        let mut j: usize = 0;
        while j < n
            invariant
                j <= n,
                n == h.len(),
                h == w.proofs@,
                wf_history(h, k),
                bal as int == balance_in(h.take(j as int), k),
            decreases n - j,
        {
            let ghost pre = h.take(j as int);
            let ghost post = h.take(j as int + 1);
            proof {
                assert(post.drop_last() =~= pre);
                assert(post.last() == h[j as int]);
                lemma_balance_never_negative(h, k, j as int + 1);
            }
            match &w.proofs[j] {
                AgreementProof::Credit(c) => {
                    if c.credit.recipient == k {
                        bal = bal + c.credit.amount;
                    }
                },
                AgreementProof::Transfer(t) => {
                    let from = t.signed_transfer.transfer.from;
                    let to = t.signed_transfer.transfer.to;
                    if from == k && to == k {
                    } else if to == k {
                        bal = bal + t.signed_transfer.transfer.amount;
                    } else if from == k {
                        bal = bal - t.signed_transfer.transfer.amount;
                    }
                },
            }
            j += 1;
        }
        proof {
            assert(h.take(n as int) =~= h);
        }
        bal
    }

    /// The sequence number the next debit of `k` must carry.
    pub fn next_seq(&self, k: PublicKey) -> (r: u64)
        requires
            self.wf(),
        ensures
            r as nat == self.spec_next_seq(k),
    {
        let idx = match self.find_wallet(k) {
            Some(i) => i,
            None => {
                return 0;
            },
        };
        proof {
            lemma_history_at(self.wallets@, k, idx as int);
        }
        let ghost h = self.spec_history(k);
        let w = &self.wallets[idx];
        let n = w.proofs.len();
        let mut count: u64 = 0;
        let mut j: usize = 0;
        while j < n
            invariant
                j <= n,
                n == h.len(),
                h == w.proofs@,
                count <= j,
                count as nat == debit_count(h.take(j as int), k),
            decreases n - j,
        {
            proof {
                assert(h.take(j as int + 1).drop_last() =~= h.take(j as int));
                assert(h.take(j as int + 1).last() == h[j as int]);
            }
            match &w.proofs[j] {
                AgreementProof::Transfer(t) => {
                    if t.signed_transfer.transfer.from == k {
                        count = count + 1;
                    }
                },
                AgreementProof::Credit(_) => {},
            }
            j += 1;
        }
        proof {
            assert(h.take(n as int) =~= h);
        }
        count
    }

    /// The suffix of `k`'s history from version `since_version` on; a
    /// caller already holding a prefix asks only for what it lacks.
    pub fn history(&self, k: PublicKey, since_version: usize) -> (r: Result<
        Vec<AgreementProof>,
        Error,
    >)
        requires
            self.wf(),
        ensures
            match r {
                Ok(v) => self.spec_has_wallet(k) && v@ == if since_version
                    <= self.spec_history(k).len() {
                    self.spec_history(k).skip(since_version as int)
                } else {
                    Seq::<AgreementProof>::empty()
                },
                Err(e) => e == Error::UnknownAccount && !self.spec_has_wallet(k),
            },
    {
        let idx = match self.find_wallet(k) {
            Some(i) => i,
            None => {
                return Err(Error::UnknownAccount);
            },
        };
        proof {
            lemma_history_at(self.wallets@, k, idx as int);
        }
        let ghost h = self.spec_history(k);
        let w = &self.wallets[idx];
        let n = w.proofs.len();
        let mut out: Vec<AgreementProof> = Vec::new();
        if since_version > n {
            assert(out@ =~= Seq::<AgreementProof>::empty());
            return Ok(out);
        }
        let mut j: usize = since_version;
        while j < n
            invariant
                since_version <= j <= n,
                n == h.len(),
                h == w.proofs@,
                out@ =~= h.subrange(since_version as int, j as int),
            decreases n - j,
        {
            out.push(w.proofs[j]);
            j += 1;
        }
        proof {
            assert(out@ =~= h.skip(since_version as int));
        }
        Ok(out)
    }

    /// Index of `k`'s wallet, appending an empty one when none exists.
    /// No key's history changes.
    fn ensure_wallet(&mut self, k: PublicKey) -> (i: usize)
        requires
            old(self).wf(),
        ensures
            final(self).wf(),
            i < final(self).wallets@.len(),
            final(self).wallets@[i as int].owner == k,
            final(self).spec_has_wallet(k),
            owner_index(final(self).wallets@, k) == i,
            forall|k2: PublicKey| final(self).spec_history(k2) == old(self).spec_history(k2),
    {
        let r = self.find_wallet(k);
        match r {
            Some(i) => {
                proof {
                    lemma_history_at(self.wallets@, k, i as int);
                }
                i
            },
            None => {
                let i = self.wallets.len();
                let w = WalletHistory { owner: k, proofs: Vec::new() };
                proof {
                    lemma_history_push(self.wallets@, w);
                }
                self.wallets.push(w);
                proof {
                    lemma_history_at(self.wallets@, k, i as int);
                }
                i
            },
        }
    }

    /// Append `entry` to the wallet at index `i`.
    fn push_entry(&mut self, i: usize, entry: AgreementProof)
        requires
            old(self).wf(),
            i < old(self).wallets@.len(),
            wf_history(
                old(self).wallets@[i as int].proofs@.push(entry),
                old(self).wallets@[i as int].owner,
            ),
        ensures
            final(self).wf(),
            final(self).spec_history(old(self).wallets@[i as int].owner) == old(self).spec_history(old(self).wallets@[i as int].owner).push(entry),
            forall|k2: PublicKey|
                k2 != old(self).wallets@[i as int].owner ==> #[trigger] final(self).spec_history(
                    k2,
                ) == old(self).spec_history(k2),
            final(self).wallets@.len() == old(self).wallets@.len(),
    {
        let ghost ws0 = self.wallets@;
        let ghost k = ws0[i as int].owner;
        let w = &mut self.wallets[i];
        w.proofs.push(entry);
        proof {
            assert(self.wallets@ =~= ws0.update(i as int, ws0[i as int]).update(
                i as int,
                self.wallets@[i as int],
            ));
            assert(self.wallets@ =~= ws0.update(i as int, self.wallets@[i as int]));
            assert(self.wallets@[i as int].owner == k);
            assert(self.wallets@[i as int].proofs@ == ws0[i as int].proofs@.push(entry));
            lemma_history_update(ws0, i as int, self.wallets@[i as int]);
            lemma_history_at(ws0, k, i as int);
        }
    }

    /// Whether some credit entry of `k`'s history carries the credit id
    /// `id`; how replicas deduplicate propagated credits.
    pub fn has_credit_with_id(&self, k: PublicKey, id: u64) -> (b: bool)
        requires
            self.wf(),
        ensures
            b == has_credit_id(self.spec_history(k), id),
    {
        let idx = match self.find_wallet(k) {
            Some(i) => i,
            None => {
                return false;
            },
        };
        proof {
            lemma_history_at(self.wallets@, k, idx as int);
        }
        let ghost h = self.spec_history(k);
        let w = &self.wallets[idx];
        let n = w.proofs.len();
        let mut j: usize = 0;
        while j < n
            invariant
                j <= n,
                n == h.len(),
                h == w.proofs@,
                h == self.spec_history(k),
                forall|m: int|
                    #![trigger h[m]]
                    0 <= m < j ==> !(h[m] matches AgreementProof::Credit(c) && c.credit.id == id),
            decreases n - j,
        {
            match &w.proofs[j] {
                AgreementProof::Credit(c) => {
                    if c.credit.id == id {
                        proof {
                            assert(h[j as int] matches AgreementProof::Credit(c2)
                                && c2.credit.id == id);
                        }
                        return true;
                    }
                },
                AgreementProof::Transfer(_) => {},
            }
            j += 1;
        }
        false
    }

    /// Whether `p` already stands in `k`'s history; how replicas recognize
    /// a retried registration.
    pub fn contains_entry(&self, k: PublicKey, p: &AgreementProof) -> (b: bool)
        requires
            self.wf(),
        ensures
            b == has_entry(self.spec_history(k), *p),
    {
        let idx = match self.find_wallet(k) {
            Some(i) => i,
            None => {
                return false;
            },
        };
        proof {
            lemma_history_at(self.wallets@, k, idx as int);
        }
        let ghost h = self.spec_history(k);
        let w = &self.wallets[idx];
        let n = w.proofs.len();
        let mut j: usize = 0;
        while j < n
            invariant
                j <= n,
                n == h.len(),
                h == w.proofs@,
                h == self.spec_history(k),
                forall|m: int| 0 <= m < j ==> h[m] != *p,
            decreases n - j,
        {
            if w.proofs[j] == *p {
                proof {
                    assert(h[j as int] == *p);
                }
                return true;
            }
            j += 1;
        }
        false
    }

    /// Commit a quorum-agreed debit: the proof enters the debited wallet's
    /// history and, when the receiving wallet is held here too, that
    /// wallet's history. Key and slot checks belong to the replica; this is
    /// the unconditional deterministic application.
    pub fn apply_transfer(&mut self, proof: &TransferAgreementProof)
        requires
            old(self).wf(),
            proof.signed_transfer.sig.signer == proof.signed_transfer.transfer.from,
            proof.signed_transfer.transfer.seq as nat == old(self).spec_next_seq(
                proof.signed_transfer.transfer.from,
            ),
            proof.signed_transfer.transfer.amount as int <= old(self).spec_balance(
                proof.signed_transfer.transfer.from,
            ),
            proof.signed_transfer.transfer.from != proof.signed_transfer.transfer.to ==> old(self).spec_balance(proof.signed_transfer.transfer.to)
                + proof.signed_transfer.transfer.amount <= u64::MAX,
        ensures
            final(self).wf(),
            final(self).spec_history(proof.signed_transfer.transfer.from) == old(self).spec_history(proof.signed_transfer.transfer.from).push(
                AgreementProof::Transfer(*proof),
            ),
            proof.signed_transfer.transfer.to != proof.signed_transfer.transfer.from ==> final(self).spec_history(proof.signed_transfer.transfer.to) == old(self).spec_history(
                proof.signed_transfer.transfer.to,
            ).push(AgreementProof::Transfer(*proof)),
            forall|k: PublicKey|
                k != proof.signed_transfer.transfer.from && k != proof.signed_transfer.transfer.to
                    ==> #[trigger] final(self).spec_history(k) == old(self).spec_history(k),
            final(self).spec_balance(proof.signed_transfer.transfer.from) == old(self).spec_balance(proof.signed_transfer.transfer.from) - (
            if proof.signed_transfer.transfer.to == proof.signed_transfer.transfer.from {
                0
            } else {
                proof.signed_transfer.transfer.amount as int
            }),
            proof.signed_transfer.transfer.to != proof.signed_transfer.transfer.from ==> final(self).spec_balance(proof.signed_transfer.transfer.to) == old(self).spec_balance(
                proof.signed_transfer.transfer.to,
            ) + proof.signed_transfer.transfer.amount,
            final(self).spec_next_seq(proof.signed_transfer.transfer.from) == old(self).spec_next_seq(proof.signed_transfer.transfer.from) + 1,
    {
        let entry = AgreementProof::Transfer(*proof);
        let from = proof.signed_transfer.transfer.from;
        let to = proof.signed_transfer.transfer.to;
        let ghost h_from = self.spec_history(from);
        let i = self.ensure_wallet(from);
        proof {
            lemma_history_at(self.wallets@, from, i as int);
            let h1 = h_from.push(entry);
            assert(h1.drop_last() =~= h_from);
            lemma_balance_in_bounds(h_from, from);
            assert(wf_history(h1, from));
        }
        self.push_entry(i, entry);
        proof {
            assert(self.spec_history(from).drop_last() =~= h_from);
        }
        if to != from {
            let ghost h_to = self.spec_history(to);
            let j = self.ensure_wallet(to);
            proof {
                lemma_history_at(self.wallets@, to, j as int);
                let h2 = h_to.push(entry);
                assert(h2.drop_last() =~= h_to);
                lemma_balance_in_bounds(h_to, to);
                assert(wf_history(h2, to));
            }
            self.push_entry(j, entry);
            proof {
                assert(self.spec_history(to).drop_last() =~= h_to);
                assert(self.spec_history(from).drop_last() =~= h_from);
            }
        }
    }

    /// Apply a quorum-agreed credit to the receiving wallet. Deduplication
    /// by credit id and key checks belong to the replica; this is the
    /// unconditional deterministic application.
    pub fn apply_credit(&mut self, proof: &CreditAgreementProof)
        requires
            old(self).wf(),
            !has_credit_id(old(self).spec_history(proof.credit.recipient), proof.credit.id),
            old(self).spec_balance(proof.credit.recipient) + proof.credit.amount <= u64::MAX,
        ensures
            final(self).wf(),
            final(self).spec_history(proof.credit.recipient) == old(self).spec_history(
                proof.credit.recipient,
            ).push(AgreementProof::Credit(*proof)),
            forall|k: PublicKey|
                k != proof.credit.recipient ==> #[trigger] final(self).spec_history(k) == old(self).spec_history(k),
            final(self).spec_balance(proof.credit.recipient) == old(self).spec_balance(
                proof.credit.recipient,
            ) + proof.credit.amount,
            final(self).spec_next_seq(proof.credit.recipient) == old(self).spec_next_seq(
                proof.credit.recipient,
            ),
    {
        let entry = AgreementProof::Credit(*proof);
        let rec = proof.credit.recipient;
        let ghost h_rec = self.spec_history(rec);
        let i = self.ensure_wallet(rec);
        proof {
            lemma_history_at(self.wallets@, rec, i as int);
            let h1 = h_rec.push(entry);
            assert(h1.drop_last() =~= h_rec);
            lemma_balance_in_bounds(h_rec, rec);
            assert(wf_history(h1, rec));
        }
        self.push_entry(i, entry);
        proof {
            assert(self.spec_history(rec).drop_last() =~= h_rec);
        }
    }
}

/// A field-for-field copy of one wallet.
fn copy_wallet(w: &WalletHistory) -> (r: WalletHistory)
    ensures
        r.owner == w.owner,
        r.proofs@ == w.proofs@,
{
    let n = w.proofs.len();
    let mut proofs: Vec<AgreementProof> = Vec::new();
    let mut j: usize = 0;
    while j < n
        invariant
            j <= n,
            n == w.proofs@.len(),
            proofs@ =~= w.proofs@.take(j as int),
        decreases n - j,
    {
        proofs.push(w.proofs[j]);
        j += 1;
    }
    proof {
        assert(w.proofs@.take(n as int) =~= w.proofs@);
    }
    WalletHistory { owner: w.owner, proofs }
}

impl TransferLedger {
    /// Partition the ledger for a section split: wallets whose owner lies
    /// inside `prefix` go to the first resulting ledger, all others to the
    /// second. Every history survives in exactly one of the two — nothing
    /// is lost and nothing is duplicated.
    pub fn split(&self, prefix: &Prefix) -> (r: (TransferLedger, TransferLedger))
        requires
            self.wf(),
        ensures
            r.0.wf(),
            r.1.wf(),
            forall|k: PublicKey|
                prefix.covers(k) ==> #[trigger] r.0.spec_history(k) == self.spec_history(k)
                    && r.1.spec_history(k) == Seq::<AgreementProof>::empty(),
            forall|k: PublicKey|
                !prefix.covers(k) ==> #[trigger] r.1.spec_history(k) == self.spec_history(k)
                    && r.0.spec_history(k) == Seq::<AgreementProof>::empty(),
    {
        let n = self.wallets.len();
        let mut a = TransferLedger { wallets: Vec::new() };
        let mut b = TransferLedger { wallets: Vec::new() };
        let mut i: usize = 0;
        proof {
            assert(forall|k: PublicKey| !has_wallet_in(a.wallets@, k));
            assert(forall|k: PublicKey| !has_wallet_in(b.wallets@, k));
            assert(forall|k: PublicKey| !has_wallet_in(self.wallets@.take(0), k));
        }
        while i < n
            invariant
                i <= n,
                n == self.wallets@.len(),
                self.wf(),
                a.wf(),
                b.wf(),
                forall|k: PublicKey|
                    has_wallet_in(a.wallets@, k) ==> has_wallet_in(self.wallets@.take(i as int), k),
                forall|k: PublicKey|
                    has_wallet_in(b.wallets@, k) ==> has_wallet_in(self.wallets@.take(i as int), k),
                forall|k: PublicKey|
                    prefix.covers(k) ==> #[trigger] a.spec_history(k) == history_in(
                        self.wallets@.take(i as int),
                        k,
                    ) && b.spec_history(k) == Seq::<AgreementProof>::empty(),
                forall|k: PublicKey|
                    !prefix.covers(k) ==> #[trigger] b.spec_history(k) == history_in(
                        self.wallets@.take(i as int),
                        k,
                    ) && a.spec_history(k) == Seq::<AgreementProof>::empty(),
            decreases n - i,
        {
            let w = copy_wallet(&self.wallets[i]);
            let ghost pre = self.wallets@.take(i as int);
            let ghost post = self.wallets@.take(i as int + 1);
            proof {
                assert(post =~= pre.push(self.wallets@[i as int]));
                // the owner of wallet `i` has no wallet among the first `i`
                assert(!has_wallet_in(pre, w.owner)) by {
                    if has_wallet_in(pre, w.owner) {
                        let m = owner_index(pre, w.owner);
                        assert(pre[m] == self.wallets@[m]);
                        assert(self.wallets@[m].owner != self.wallets@[i as int].owner);
                    }
                }
                lemma_history_push(pre, self.wallets@[i as int]);
            }
            let ghost a0 = a;
            let ghost b0 = b;
            if prefix.covers_name(w.owner) {
                proof {
                    lemma_history_push(a.wallets@, w);
                }
                a.wallets.push(w);
                proof {
                    assert(a.wallets@ == a0.wallets@.push(w));
                    assert forall|k: PublicKey| has_wallet_in(a.wallets@, k) implies has_wallet_in(
                        post,
                        k,
                    ) by {
                        let m = owner_index(a.wallets@, k);
                        assert(0 <= m < a.wallets@.len() && a.wallets@[m].owner == k);
                        if m < a0.wallets@.len() {
                            assert(a0.wallets@[m].owner == k);
                            assert(has_wallet_in(a0.wallets@, k));
                            let m2 = owner_index(pre, k);
                            assert(post[m2].owner == k);
                        } else {
                            assert(post[pre.len() as int].owner == k);
                        }
                    }
                    assert forall|k: PublicKey| has_wallet_in(b.wallets@, k) implies has_wallet_in(
                        post,
                        k,
                    ) by {
                        let m2 = owner_index(pre, k);
                        assert(post[m2].owner == k);
                    }
                    let wi = self.wallets@[i as int];
                    assert forall|k: PublicKey| prefix.covers(k) implies #[trigger] a.spec_history(
                        k,
                    ) == history_in(post, k) && b.spec_history(k) == Seq::<
                        AgreementProof,
                    >::empty() by {
                        assert(history_in(post, k) == history_in(pre.push(wi), k));
                        assert(a0.spec_history(k) == history_in(a0.wallets@, k));
                        assert(b0.spec_history(k) == history_in(b0.wallets@, k));
                        assert(a.spec_history(k) == history_in(a0.wallets@.push(w), k));
                        if k == w.owner {
                            assert(history_in(a0.wallets@.push(w), k) == w.proofs@);
                            assert(history_in(pre.push(wi), k) == wi.proofs@);
                        } else {
                            assert(history_in(a0.wallets@.push(w), k) == history_in(a0.wallets@, k));
                            assert(history_in(pre.push(wi), k) == history_in(pre, k));
                        }
                    }
                    assert forall|k: PublicKey| !prefix.covers(k) implies #[trigger] b.spec_history(
                        k,
                    ) == history_in(post, k) && a.spec_history(k) == Seq::<
                        AgreementProof,
                    >::empty() by {
                        assert(history_in(post, k) == history_in(pre.push(wi), k));
                        assert(a0.spec_history(k) == history_in(a0.wallets@, k));
                        assert(b0.spec_history(k) == history_in(b0.wallets@, k));
                        assert(k != w.owner);
                        assert(history_in(pre.push(wi), k) == history_in(pre, k));
                        assert(a.spec_history(k) == history_in(a0.wallets@.push(w), k));
                        assert(history_in(a0.wallets@.push(w), k) == history_in(a0.wallets@, k));
                    }
                }
            } else {
                proof {
                    lemma_history_push(b.wallets@, w);
                }
                b.wallets.push(w);
                proof {
                    assert(b.wallets@ == b0.wallets@.push(w));
                    assert forall|k: PublicKey| has_wallet_in(b.wallets@, k) implies has_wallet_in(
                        post,
                        k,
                    ) by {
                        let m = owner_index(b.wallets@, k);
                        assert(0 <= m < b.wallets@.len() && b.wallets@[m].owner == k);
                        if m < b0.wallets@.len() {
                            assert(b0.wallets@[m].owner == k);
                            assert(has_wallet_in(b0.wallets@, k));
                            let m2 = owner_index(pre, k);
                            assert(post[m2].owner == k);
                        } else {
                            assert(post[pre.len() as int].owner == k);
                        }
                    }
                    assert forall|k: PublicKey| has_wallet_in(a.wallets@, k) implies has_wallet_in(
                        post,
                        k,
                    ) by {
                        let m2 = owner_index(pre, k);
                        assert(post[m2].owner == k);
                    }
                    let wi = self.wallets@[i as int];
                    assert forall|k: PublicKey| !prefix.covers(k) implies #[trigger] b.spec_history(
                        k,
                    ) == history_in(post, k) && a.spec_history(k) == Seq::<
                        AgreementProof,
                    >::empty() by {
                        assert(history_in(post, k) == history_in(pre.push(wi), k));
                        assert(a0.spec_history(k) == history_in(a0.wallets@, k));
                        assert(b0.spec_history(k) == history_in(b0.wallets@, k));
                        assert(b.spec_history(k) == history_in(b0.wallets@.push(w), k));
                        if k == w.owner {
                            assert(history_in(b0.wallets@.push(w), k) == w.proofs@);
                            assert(history_in(pre.push(wi), k) == wi.proofs@);
                        } else {
                            assert(history_in(b0.wallets@.push(w), k) == history_in(b0.wallets@, k));
                            assert(history_in(pre.push(wi), k) == history_in(pre, k));
                        }
                    }
                    assert forall|k: PublicKey| prefix.covers(k) implies #[trigger] a.spec_history(
                        k,
                    ) == history_in(post, k) && b.spec_history(k) == Seq::<
                        AgreementProof,
                    >::empty() by {
                        assert(history_in(post, k) == history_in(pre.push(wi), k));
                        assert(a0.spec_history(k) == history_in(a0.wallets@, k));
                        assert(b0.spec_history(k) == history_in(b0.wallets@, k));
                        assert(k != w.owner);
                        assert(history_in(pre.push(wi), k) == history_in(pre, k));
                        assert(b.spec_history(k) == history_in(b0.wallets@.push(w), k));
                        assert(history_in(b0.wallets@.push(w), k) == history_in(b0.wallets@, k));
                    }
                }
            }
            i += 1;
        }
        proof {
            assert(self.wallets@.take(n as int) =~= self.wallets@);
        }
        (a, b)
    }
}

/// Law of the balance: what the ledger answers for any key is exactly the
/// sum of the credits committed for it minus the sum of the debits, and
/// never negative.
pub proof fn lemma_ledger_balance_formula(l: TransferLedger, k: PublicKey)
    requires
        l.wf(),
    ensures
        l.spec_balance(k) == credit_sum(l.spec_history(k), k) - debit_sum(l.spec_history(k), k),
        0 <= l.spec_balance(k) <= u64::MAX,
{
    let h = l.spec_history(k);
    lemma_balance_is_credits_minus_debits(h, k);
    if has_wallet_in(l.wallets@, k) {
        let i = owner_index(l.wallets@, k);
        lemma_balance_in_bounds(h, k);
    }
}

/// The cost of writing to the network: a configured rate, scaled up with the
/// network's fill level and the number of bytes, saturating at the largest
/// representable amount.
pub open spec fn spec_store_cost(rate: u64, fill: u64, bytes: u64) -> int {
    let raw = (rate as int) * (fill as int + 1) * (bytes as int);
    if raw > u64::MAX as int {
        u64::MAX as int
    } else {
        raw
    }
}

/// Runtime form of [`spec_store_cost`].
pub fn store_cost(rate: u64, fill: u64, bytes: u64) -> (r: Token)
    ensures
        r as int == spec_store_cost(rate, fill, bytes),
{
    if bytes == 0 {
        return 0;
    }
    proof {
        assert((rate as int) * (fill as int + 1) <= u128::MAX) by (nonlinear_arith)
            requires
                0 <= rate <= u64::MAX,
                0 <= fill <= u64::MAX,
        ;
    }
    let t1: u128 = (rate as u128) * (fill as u128 + 1);
    if t1 > u64::MAX as u128 {
        proof {
            assert((rate as int) * (fill as int + 1) * (bytes as int) >= (rate as int) * (
            fill as int + 1) * 1) by (nonlinear_arith)
                requires
                    bytes >= 1,
                    rate >= 0,
                    fill >= 0,
            ;
        }
        return u64::MAX;
    }
    proof {
        assert((t1 as int) * (bytes as int) <= u128::MAX) by (nonlinear_arith)
            requires
                0 <= t1 <= u64::MAX,
                0 <= bytes <= u64::MAX,
        ;
    }
    let t2: u128 = t1 * (bytes as u128);
    proof {
        assert((rate as int) * (fill as int + 1) * (bytes as int) == t2 as int) by (
        nonlinear_arith)
            requires
                t1 as int == (rate as int) * (fill as int + 1),
                t2 as int == (t1 as int) * (bytes as int),
        ;
    }
    if t2 > u64::MAX as u128 {
        u64::MAX
    } else {
        t2 as u64
    }
}

/// The store-cost curve never decreases as the fill level or the byte count
/// grows.
pub proof fn lemma_store_cost_monotonic(rate: u64, fill1: u64, fill2: u64, b1: u64, b2: u64)
    requires
        fill1 <= fill2,
        b1 <= b2,
    ensures
        spec_store_cost(rate, fill1, b1) <= spec_store_cost(rate, fill2, b2),
{
    assert((rate as int) * (fill1 as int + 1) * (b1 as int) <= (rate as int) * (fill2 as int + 1)
        * (b2 as int)) by (nonlinear_arith)
        requires
            0 <= rate,
            0 <= fill1 <= fill2,
            0 <= b1 <= b2,
    ;
}

} // verus!
