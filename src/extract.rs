//! Recognising inscription instructions in a transaction and building the
//! record that persists them.
use vstd::prelude::*;

use crate::encoding::{base58_of, encode_base58};
use crate::record::{DbInscription, DbWorkItem, InscriptionView, LogInscriptionRequest};

verus! {

/// What an instruction's payload decodes to, as far as extraction cares.
#[derive(Clone, Copy, PartialEq, Eq, Structural, Debug)]
pub enum InstructionKind {
    Initialize,
    InitializeFromMint,
    /// Another instruction of the program, or a payload that does not decode.
    Unrecognized,
}

/// An instruction whose payload has been decoded: its kind and the indices
/// it holds into the transaction's account-key table.
pub struct DecodedInstruction {
    pub kind: InstructionKind,
    pub accounts: Vec<u8>,
}

/// A committed transaction, as the extractor sees it.
pub struct DecodedTransaction {
    pub signature: Vec<u8>,
    pub account_keys: Vec<Vec<u8>>,
    pub instructions: Vec<DecodedInstruction>,
    pub succeeded: bool,
}

/// Where, among an instruction's resolved accounts, each field of the record
/// is found.
#[derive(Clone, Copy, PartialEq, Eq, Structural, Debug)]
pub struct AccountLayout {
    pub account: usize,
    pub metadata_account: usize,
    pub mint_account: Option<usize>,
    pub authority: usize,
}

/// The layout of each recognised instruction kind.
pub open spec fn layout_of(kind: InstructionKind) -> Option<AccountLayout> {
    match kind {
        InstructionKind::Initialize => Some(
            AccountLayout { account: 0, metadata_account: 1, mint_account: None, authority: 3 },
        ),
        InstructionKind::InitializeFromMint => Some(
            AccountLayout { account: 0, metadata_account: 1, mint_account: Some(2), authority: 5 },
        ),
        InstructionKind::Unrecognized => None,
    }
}

/// The layout of an instruction kind, if extraction recognises the kind.
pub fn account_layout(kind: InstructionKind) -> (r: Option<AccountLayout>)
    ensures
        r == layout_of(kind),
{
    match kind {
        InstructionKind::Initialize => Some(
            AccountLayout { account: 0, metadata_account: 1, mint_account: None, authority: 3 },
        ),
        InstructionKind::InitializeFromMint => Some(
            AccountLayout { account: 0, metadata_account: 1, mint_account: Some(2), authority: 5 },
        ),
        InstructionKind::Unrecognized => None,
    }
}

/// Every position that the layout reads lies below `n`.
pub open spec fn layout_fits(l: AccountLayout, n: nat) -> bool {
    &&& l.account < n
    &&& l.metadata_account < n
    &&& l.authority < n
    &&& (l.mint_account matches Some(p) ==> p < n)
}

/// The instruction's account indices that fall inside a table of `n` keys,
/// in order; indices outside the table are dropped.
pub open spec fn resolve(n: nat, idx: Seq<u8>) -> Seq<usize>
    decreases idx.len(),
{
    if idx.len() == 0 {
        Seq::empty()
    } else {
        let prev = resolve(n, idx.drop_last());
        if (idx.last() as nat) < n {
            prev.push(idx.last() as usize)
        } else {
            prev
        }
    }
}

/// The layout and resolved accounts of an instruction, when it is a
/// recognised kind with enough resolved accounts for its layout.
pub open spec fn instruction_match(n: nat, ins: DecodedInstruction) -> Option<(AccountLayout, Seq<usize>)> {
    match layout_of(ins.kind) {
        Some(l) => {
            let res = resolve(n, ins.accounts@);
            if layout_fits(l, res.len()) {
                Some((l, res))
            } else {
                None
            }
        },
        None => None,
    }
}

/// The last matching instruction of a sequence.
pub open spec fn last_match(n: nat, instrs: Seq<DecodedInstruction>) -> Option<(AccountLayout, Seq<usize>)>
    decreases instrs.len(),
{
    if instrs.len() == 0 {
        None
    } else {
        match instruction_match(n, instrs.last()) {
            Some(m) => Some(m),
            None => last_match(n, instrs.drop_last()),
        }
    }
}

/// The Base58 text of the key at position `p` of the resolved accounts.
pub open spec fn key_text(keys: Seq<Vec<u8>>, res: Seq<usize>, p: usize) -> Seq<char> {
    base58_of(keys[res[p as int] as int]@)
}

/// The record built from a matching instruction.
pub open spec fn record_from(
    tx: DecodedTransaction,
    l: AccountLayout,
    res: Seq<usize>,
    slot: u64,
    version: u64,
) -> InscriptionView {
    let keys = tx.account_keys@;
    InscriptionView {
        slot: slot as i64,
        signature: base58_of(tx.signature@),
        account: key_text(keys, res, l.account),
        mint_account: match l.mint_account {
            Some(p) => Some(key_text(keys, res, p)),
            None => None,
        },
        metadata_account: key_text(keys, res, l.metadata_account),
        authority: key_text(keys, res, l.authority),
        write_version: version,
    }
}

/// The record that a transaction yields, stamped with `version`: the one of
/// its last matching instruction, or none when no instruction matches.
pub open spec fn extracted(tx: DecodedTransaction, slot: u64, version: u64) -> Option<InscriptionView> {
    match last_match(tx.account_keys@.len(), tx.instructions@) {
        Some((l, res)) => Some(record_from(tx, l, res, slot, version)),
        None => None,
    }
}

pub open spec fn view_of_option(r: Option<DbInscription>) -> Option<InscriptionView> {
    match r {
        Some(rec) => Some(rec@),
        None => None,
    }
}

/// Every resolved index lies inside the table.
pub proof fn lemma_resolved_in_range(n: nat, idx: Seq<u8>)
    ensures
        forall|k: int| 0 <= k < resolve(n, idx).len() ==> (resolve(n, idx)[k] as nat) < n,
    decreases idx.len(),
{
    if idx.len() > 0 {
        let prev = resolve(n, idx.drop_last());
        lemma_resolved_in_range(n, idx.drop_last());
        assert forall|k: int| 0 <= k < resolve(n, idx).len() implies (resolve(n, idx)[k] as nat)
            < n by {
            if k < prev.len() {
                assert(resolve(n, idx)[k] == prev[k]);
            }
        }
    }
}

/// Resolves an instruction's account indices against a table of `n_keys` keys.
fn resolve_accounts(n_keys: usize, idx: &Vec<u8>) -> (r: Vec<usize>)
    ensures
        r@ == resolve(n_keys as nat, idx@),
        forall|k: int| 0 <= k < r@.len() ==> r@[k] < n_keys,
{
    let mut r: Vec<usize> = Vec::new();
    let mut i: usize = 0;
    while i < idx.len()
        invariant
            i <= idx.len(),
            r@ == resolve(n_keys as nat, idx@.subrange(0, i as int)),
        decreases idx.len() - i,
    {
        let k: usize = idx[i] as usize;
        if k < n_keys {
            r.push(k);
        }
        proof {
            assert(idx@.subrange(0, i + 1).drop_last() =~= idx@.subrange(0, i as int));
        }
        i += 1;
    }
    proof {
        assert(idx@.subrange(0, idx@.len() as int) =~= idx@);
        lemma_resolved_in_range(n_keys as nat, idx@);
    }
    r
}

fn fits(l: &AccountLayout, n: usize) -> (r: bool)
    ensures
        r == layout_fits(*l, n as nat),
{
    let mint_fits = match l.mint_account {
        Some(p) => p < n,
        None => true,
    };
    l.account < n && l.metadata_account < n && l.authority < n && mint_fits
}

/// Whether the transaction succeeded and lists `program_id` among its keys.
pub open spec fn accepted(tx: DecodedTransaction, program_id: Seq<u8>) -> bool {
    &&& tx.succeeded
    &&& exists|i: int| 0 <= i < tx.account_keys@.len() && tx.account_keys@[i]@ == program_id
}

/// The record that a committed transaction hands to the store, if any.
pub open spec fn work_for(
    tx: DecodedTransaction,
    slot: u64,
    program_id: Seq<u8>,
    version: u64,
) -> Option<InscriptionView> {
    if accepted(tx, program_id) {
        extracted(tx, slot, version)
    } else {
        None
    }
}

pub open spec fn item_view(r: Option<DbWorkItem>) -> Option<InscriptionView> {
    match r {
        Some(item) => Some(item.record()@),
        None => None,
    }
}

fn bytes_equal(a: &Vec<u8>, b: &Vec<u8>) -> (r: bool)
    ensures
        r == (a@ == b@),
{
    if a.len() != b.len() {
        return false;
    }
    let mut i: usize = 0;
    while i < a.len()
        invariant
            i <= a.len(),
            a@.len() == b@.len(),
            forall|k: int| 0 <= k < i ==> a@[k] == b@[k],
        decreases a.len() - i,
    {
        if a[i] != b[i] {
            return false;
        }
        i += 1;
    }
    proof {
        assert(a@ =~= b@);
    }
    true
}

/// Whether one of the keys equals `program_id`.
pub fn invokes_program(keys: &Vec<Vec<u8>>, program_id: &Vec<u8>) -> (r: bool)
    ensures
        r == exists|i: int| 0 <= i < keys@.len() && keys@[i]@ == program_id@,
{
    let mut i: usize = 0;
    while i < keys.len()
        invariant
            i <= keys.len(),
            forall|k: int| 0 <= k < i ==> keys@[k]@ != program_id@,
        decreases keys.len() - i,
    {
        if bytes_equal(&keys[i], program_id) {
            return true;
        }
        i += 1;
    }
    false
}

/// No instruction of `instrs` matches, so there is no last match.
proof fn lemma_no_match_prefix(n: nat, instrs: Seq<DecodedInstruction>)
    requires
        forall|i: int| 0 <= i < instrs.len() ==> instruction_match(n, #[trigger] instrs[i]) is None,
    ensures
        last_match(n, instrs) is None,
    decreases instrs.len(),
{
    if instrs.len() > 0 {
        let prefix = instrs.drop_last();
        assert forall|i: int| 0 <= i < prefix.len() implies instruction_match(n, #[trigger] prefix[i])
            is None by {
            assert(prefix[i] == instrs[i]);
        }
        lemma_no_match_prefix(n, prefix);
    }
}

/// A transaction none of whose instructions is a recognised kind with
/// enough resolvable accounts yields no record.
pub proof fn lemma_no_match_no_record(tx: DecodedTransaction, slot: u64, version: u64)
    requires
        forall|i: int|
            0 <= i < tx.instructions@.len() ==> instruction_match(
                tx.account_keys@.len(),
                #[trigger] tx.instructions@[i],
            ) is None,
    ensures
        extracted(tx, slot, version) is None,
{
    lemma_no_match_prefix(tx.account_keys@.len(), tx.instructions@);
}

/// The last match is the match of some instruction, and no later
/// instruction matches.
proof fn lemma_last_match_source(n: nat, instrs: Seq<DecodedInstruction>)
    requires
        last_match(n, instrs) is Some,
    ensures
        exists|i: int|
            0 <= i < instrs.len() && instruction_match(n, #[trigger] instrs[i]) == last_match(n, instrs)
                && forall|j: int| i < j < instrs.len() ==> instruction_match(n, #[trigger] instrs[j]) is None,
    decreases instrs.len(),
{
    let last = instrs.len() - 1;
    if instruction_match(n, instrs.last()) is Some {
        assert(instruction_match(n, instrs[last]) == last_match(n, instrs));
    } else {
        let prefix = instrs.drop_last();
        lemma_last_match_source(n, prefix);
        let i = choose|i: int|
            0 <= i < prefix.len() && instruction_match(n, #[trigger] prefix[i]) == last_match(n, prefix)
                && forall|j: int| i < j < prefix.len() ==> instruction_match(n, #[trigger] prefix[j]) is None;
        assert(prefix[i] == instrs[i]);
        assert forall|j: int| i < j < instrs.len() implies instruction_match(n, #[trigger] instrs[j])
            is None by {
            if j < last {
                assert(prefix[j] == instrs[j]);
            }
        }
    }
}

/// A record comes from the last instruction that matches: its account, its
/// metadata account, its authority and its mint account are the keys at the
/// positions that the instruction kind's layout fixes among that
/// instruction's resolved accounts, and its write version is the one given.
pub proof fn lemma_record_fields(tx: DecodedTransaction, slot: u64, version: u64)
    requires
        extracted(tx, slot, version) is Some,
    ensures
        exists|i: int|
            #![trigger tx.instructions@[i]]
            0 <= i < tx.instructions@.len() && {
                let ins = tx.instructions@[i];
                let n = tx.account_keys@.len();
                let res = resolve(n, ins.accounts@);
                let keys = tx.account_keys@;
                let rec = extracted(tx, slot, version)->0;
                &&& layout_of(ins.kind) matches Some(l)
                &&& layout_fits(l, res.len())
                &&& rec.account == key_text(keys, res, l.account)
                &&& rec.metadata_account == key_text(keys, res, l.metadata_account)
                &&& rec.authority == key_text(keys, res, l.authority)
                &&& rec.mint_account == match l.mint_account {
                    Some(p) => Some(key_text(keys, res, p)),
                    None => None,
                }
                &&& rec.write_version == version
                &&& forall|j: int|
                    i < j < tx.instructions@.len() ==> instruction_match(n, #[trigger] tx.instructions@[j])
                        is None
            },
{
    lemma_last_match_source(tx.account_keys@.len(), tx.instructions@);
}

/// The records that a run of extractions yields from consecutive calls, and
/// the write version that follows them.
pub open spec fn extraction_run(version: u64, calls: Seq<(DecodedTransaction, u64)>) -> (u64, Seq<InscriptionView>)
    decreases calls.len(),
{
    if calls.len() == 0 {
        (version, Seq::empty())
    } else {
        let (v, out) = extraction_run(version, calls.drop_last());
        let (tx, slot) = calls.last();
        match extracted(tx, slot, v) {
            Some(r) => ((v + 1) as u64, out.push(r)),
            None => (v, out),
        }
    }
}

/// Across consecutive extractions the records' write versions strictly
/// increase, and all lie below the version that comes next.
pub proof fn lemma_write_versions_increase(version: u64, calls: Seq<(DecodedTransaction, u64)>)
    requires
        version + calls.len() < u64::MAX,
    ensures
        ({
            let (v, out) = extraction_run(version, calls);
            &&& version <= v <= version + calls.len()
            &&& forall|k: int| 0 <= k < out.len() ==> version <= #[trigger] out[k].write_version < v
            &&& forall|a: int, b: int|
                0 <= a < b < out.len() ==> (#[trigger] out[a]).write_version < (#[trigger] out[b]).write_version
        }),
    decreases calls.len(),
{
    if calls.len() > 0 {
        lemma_write_versions_increase(version, calls.drop_last());
        let (v, out) = extraction_run(version, calls.drop_last());
        let (tx, slot) = calls.last();
        match extracted(tx, slot, v) {
            Some(r) => {
                let out2 = out.push(r);
                assert(out2[out2.len() - 1].write_version == v);
                assert forall|k: int| 0 <= k < out2.len() implies version <= #[trigger] out2[k].write_version
                    < v + 1 by {
                    if k < out.len() {
                        assert(out2[k] == out[k]);
                    }
                }
                assert forall|a: int, b: int|
                    0 <= a < b < out2.len() implies (#[trigger] out2[a]).write_version < (
                    #[trigger] out2[b]).write_version by {
                    assert(out2[a] == out[a]);
                    if b < out.len() {
                        assert(out2[b] == out[b]);
                    }
                }
            },
            None => {},
        }
    }
}

/// Two consecutive extractions that both yield a record: the later record's
/// write version is larger. Between them the counter has advanced past the
/// first version (by exactly one when the calls are adjacent, since calls
/// that yield nothing leave it alone).
pub proof fn lemma_consecutive_extractions(
    tx1: DecodedTransaction,
    slot1: u64,
    version1: u64,
    tx2: DecodedTransaction,
    slot2: u64,
    version2: u64,
)
    requires
        extracted(tx1, slot1, version1) is Some,
        version2 >= version1 + 1,
        extracted(tx2, slot2, version2) is Some,
    ensures
        extracted(tx1, slot1, version1)->0.write_version == version1,
        extracted(tx2, slot2, version2)->0.write_version == version2,
        extracted(tx1, slot1, version1)->0.write_version < extracted(tx2, slot2, version2)->0.write_version,
{
}

proof fn lemma_resolve_len(n: nat, idx: Seq<u8>)
    ensures
        resolve(n, idx).len() <= idx.len(),
    decreases idx.len(),
{
    if idx.len() > 0 {
        lemma_resolve_len(n, idx.drop_last());
    }
}

/// When the first `m` indices all lie inside the table, the first `m`
/// resolved accounts are those indices, in order.
proof fn lemma_resolve_prefix(n: nat, idx: Seq<u8>, m: int)
    requires
        0 <= m <= idx.len(),
        forall|j: int| 0 <= j < m ==> (idx[j] as nat) < n,
    ensures
        resolve(n, idx).len() >= m,
        forall|j: int| 0 <= j < m ==> resolve(n, idx)[j] == idx[j] as usize,
    decreases idx.len(),
{
    if idx.len() > 0 {
        let p = idx.drop_last();
        if idx.len() == m {
            assert forall|j: int| 0 <= j < m - 1 implies (p[j] as nat) < n by {
                assert(p[j] == idx[j]);
            }
            lemma_resolve_prefix(n, p, m - 1);
            lemma_resolve_len(n, p);
            assert(idx[m - 1] == idx.last());
            assert forall|j: int| 0 <= j < m implies resolve(n, idx)[j] == idx[j] as usize by {
                if j < m - 1 {
                    assert(p[j] == idx[j]);
                }
            }
        } else {
            assert forall|j: int| 0 <= j < m implies (p[j] as nat) < n by {
                assert(p[j] == idx[j]);
            }
            lemma_resolve_prefix(n, p, m);
            assert forall|j: int| 0 <= j < m implies resolve(n, idx)[j] == idx[j] as usize by {
                assert(p[j] == idx[j]);
                assert(resolve(n, idx)[j] == resolve(n, p)[j]);
            }
        }
    }
}

/// The Base58 text of the key that an instruction's `p`-th account index
/// points to.
pub open spec fn indexed_key_text(tx: DecodedTransaction, accounts: Seq<u8>, p: usize) -> Seq<char> {
    base58_of(tx.account_keys@[accounts[p as int] as int]@)
}

/// A transaction of one instruction of a recognised kind, whose first `m`
/// account indices lie inside the key table and cover every position of
/// the kind's layout, yields one record. Its fields are the keys that the
/// instruction's indices at the layout's positions point to, and its mint
/// account is present exactly when the layout has one.
pub proof fn lemma_single_instruction_record(tx: DecodedTransaction, slot: u64, version: u64, m: nat)
    requires
        tx.instructions@.len() == 1,
        layout_of(tx.instructions@[0].kind) is Some,
        layout_fits(layout_of(tx.instructions@[0].kind)->0, m),
        m <= tx.instructions@[0].accounts@.len(),
        forall|j: int|
            0 <= j < m ==> (tx.instructions@[0].accounts@[j] as nat) < tx.account_keys@.len(),
    ensures
        ({
            let l = layout_of(tx.instructions@[0].kind)->0;
            let acc = tx.instructions@[0].accounts@;
            &&& extracted(tx, slot, version) is Some
            &&& extracted(tx, slot, version)->0 == InscriptionView {
                slot: slot as i64,
                signature: base58_of(tx.signature@),
                account: indexed_key_text(tx, acc, l.account),
                mint_account: match l.mint_account {
                    Some(p) => Some(indexed_key_text(tx, acc, p)),
                    None => None,
                },
                metadata_account: indexed_key_text(tx, acc, l.metadata_account),
                authority: indexed_key_text(tx, acc, l.authority),
                write_version: version,
            }
        }),
{
    let n = tx.account_keys@.len();
    let ins = tx.instructions@[0];
    lemma_resolve_prefix(n, ins.accounts@, m as int);
    assert(tx.instructions@.drop_last() =~= Seq::<DecodedInstruction>::empty());
    assert(tx.instructions@.last() == ins);
}

/// One initialize-from-mint instruction whose first six account indices lie
/// inside the key table: the record's account, metadata account, mint
/// account and authority are the keys at its indices 0, 1, 2 and 5.
pub proof fn lemma_initialize_from_mint_record(tx: DecodedTransaction, slot: u64, version: u64)
    requires
        tx.instructions@.len() == 1,
        tx.instructions@[0].kind == InstructionKind::InitializeFromMint,
        6 <= tx.instructions@[0].accounts@.len(),
        forall|j: int|
            0 <= j < 6 ==> (tx.instructions@[0].accounts@[j] as nat) < tx.account_keys@.len(),
    ensures
        ({
            let acc = tx.instructions@[0].accounts@;
            let r = extracted(tx, slot, version)->0;
            &&& extracted(tx, slot, version) is Some
            &&& r.account == indexed_key_text(tx, acc, 0)
            &&& r.metadata_account == indexed_key_text(tx, acc, 1)
            &&& r.mint_account == Some(indexed_key_text(tx, acc, 2))
            &&& r.authority == indexed_key_text(tx, acc, 5)
            &&& r.write_version == version
        }),
{
    lemma_single_instruction_record(tx, slot, version, 6);
}

/// One initialize instruction whose first four account indices lie inside
/// the key table: the record's account, metadata account and authority are
/// the keys at its indices 0, 1 and 3, and it has no mint account.
pub proof fn lemma_initialize_record(tx: DecodedTransaction, slot: u64, version: u64)
    requires
        tx.instructions@.len() == 1,
        tx.instructions@[0].kind == InstructionKind::Initialize,
        4 <= tx.instructions@[0].accounts@.len(),
        forall|j: int|
            0 <= j < 4 ==> (tx.instructions@[0].accounts@[j] as nat) < tx.account_keys@.len(),
    ensures
        ({
            let acc = tx.instructions@[0].accounts@;
            let r = extracted(tx, slot, version)->0;
            &&& extracted(tx, slot, version) is Some
            &&& r.account == indexed_key_text(tx, acc, 0)
            &&& r.metadata_account == indexed_key_text(tx, acc, 1)
            &&& r.mint_account is None
            &&& r.authority == indexed_key_text(tx, acc, 3)
            &&& r.write_version == version
        }),
{
    lemma_single_instruction_record(tx, slot, version, 4);
}

/// The bound on write versions: they are stored in a signed 64-bit column.
pub const MAX_WRITE_VERSION: u64 = 9223372036854775807;

/// Issues write versions and turns transactions into records.
pub struct InscriptionExtractor {
    next_write_version: u64,
}

impl InscriptionExtractor {
    /// The write version that the next record will carry.
    pub closed spec fn next_version(&self) -> u64 {
        self.next_write_version
    }

    /// An extractor whose first record carries write version 1.
    pub fn new() -> (r: Self)
        ensures
            r.next_version() == 1,
    {
        InscriptionExtractor { next_write_version: 1 }
    }

    /// Whether another record can still be issued a fresh write version.
    pub fn has_versions_left(&self) -> (r: bool)
        ensures
            r == (self.next_version() < MAX_WRITE_VERSION),
    {
        self.next_write_version < MAX_WRITE_VERSION
    }

    /// The record of the transaction's last matching instruction, stamped
    /// with a fresh write version; none when no instruction matches, and then
    /// no version is used up.
    pub fn extract(&mut self, tx: &DecodedTransaction, slot: u64) -> (r: Option<DbInscription>)
        requires
            old(self).next_version() < MAX_WRITE_VERSION,
        ensures
            view_of_option(r) == extracted(*tx, slot, old(self).next_version()),
            final(self).next_version() == if r is Some {
                (old(self).next_version() + 1) as u64
            } else {
                old(self).next_version()
            },
    {
        let n_keys = tx.account_keys.len();
        let mut found: Option<(AccountLayout, Vec<usize>)> = None;
        let mut i: usize = 0;
        while i < tx.instructions.len()
            invariant
                i <= tx.instructions.len(),
                n_keys == tx.account_keys@.len(),
                match found {
                    Some((l, res)) => last_match(n_keys as nat, tx.instructions@.subrange(0, i as int))
                        == Some((l, res@)),
                    None => last_match(n_keys as nat, tx.instructions@.subrange(0, i as int))
                        is None,
                },
                found matches Some((l, res)) ==> forall|k: int| 0 <= k < res@.len() ==> res@[k] < n_keys,
                found matches Some((l, res)) ==> layout_fits(l, res@.len()),
            decreases tx.instructions.len() - i,
        {
            let ins = &tx.instructions[i];
            match account_layout(ins.kind) {
                Some(layout) => {
                    let res = resolve_accounts(n_keys, &ins.accounts);
                    if fits(&layout, res.len()) {
                        found = Some((layout, res));
                    }
                },
                None => {},
            }
            proof {
                assert(tx.instructions@.subrange(0, i + 1).drop_last()
                    =~= tx.instructions@.subrange(0, i as int));
            }
            i += 1;
        }
        proof {
            assert(tx.instructions@.subrange(0, tx.instructions@.len() as int) =~= tx.instructions@);
        }
        match found {
            None => None,
            Some((layout, res)) => {
                let keys = &tx.account_keys;
                let account = encode_base58(&keys[res[layout.account]]);
                let metadata_account = encode_base58(&keys[res[layout.metadata_account]]);
                let authority = encode_base58(&keys[res[layout.authority]]);
                let mint_account = match layout.mint_account {
                    Some(p) => Some(encode_base58(&keys[res[p]])),
                    None => None,
                };
                let signature = encode_base58(&tx.signature);
                let write_version = self.next_write_version;
                self.next_write_version = self.next_write_version + 1;
                let rec = DbInscription {
                    slot: #[verifier::truncate] (slot as i64),
                    signature,
                    account,
                    mint_account,
                    metadata_account,
                    authority,
                    write_version,
                };
                proof {
                    assert(rec@ == record_from(*tx, layout, res@, slot, write_version));
                }
                Some(rec)
            },
        }
    }

    /// The work item of a committed transaction: none when it failed, when
    /// none of its keys is `program_id`, or when no instruction matches; else
    /// the record of its last matching instruction.
    pub fn extract_work_item(
        &mut self,
        tx: &DecodedTransaction,
        slot: u64,
        program_id: &Vec<u8>,
    ) -> (r: Option<DbWorkItem>)
        requires
            old(self).next_version() < MAX_WRITE_VERSION,
        ensures
            item_view(r) == work_for(*tx, slot, program_id@, old(self).next_version()),
            final(self).next_version() == if r is Some {
                (old(self).next_version() + 1) as u64
            } else {
                old(self).next_version()
            },
    {
        if !tx.succeeded || !invokes_program(&tx.account_keys, program_id) {
            return None;
        }
        match self.extract(tx, slot) {
            Some(inscription_info) => Some(
                DbWorkItem::LogInscription(LogInscriptionRequest { inscription_info }),
            ),
            None => None,
        }
    }
}

} // verus!
