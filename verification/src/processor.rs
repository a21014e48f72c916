//! Per-invocation processing: what one request does to one record.
//!
//! This mirrors the on-chain program: the caller hands in the record the
//! request targets (address, ownership tag, balance, stored bytes) together
//! with the signer flags the runtime verified, and gets back the external
//! calls to issue and the record's new contents. The effect of every
//! function is given exactly by a spec-level transition.

use vstd::prelude::*;
use vstd::pervasive::unreached;
use vstd::slice::slice_to_vec;

use crate::address_equal;
use crate::errors::OpError;
use crate::errors::RequestError;
use crate::instruction::spec_decode;
use crate::instruction::Instruction;
use crate::instruction::CREATE_BITMAP;
use crate::lifecycle::plan_creation;
use crate::lifecycle::spec_creation_plan;
use crate::lifecycle::funded_balance;
use crate::lifecycle::ExternalCall;
use crate::pda::spec_derive;
use crate::pda::spec_reconstruct;
use crate::pda::try_derive_bitmap_pda;
use crate::pda::BitmapPdaSeeds;
use crate::state::seq_is_used;
use crate::state::spec_set_bit;
use crate::state::zero_bitmap;
use crate::state::BitmapAccount;
use crate::Address;
use crate::BITMAP_ACCOUNT_SIZE;
use crate::MAX_NAMESPACE_LEN;

verus! {

/// One record as the runtime presents it to an invocation.
pub struct RecordView {
    /// The address the record sits at.
    pub address: Address,
    /// Whether the record is already tagged as owned by this system.
    pub owned: bool,
    /// The balance held at the record's address.
    pub lamports: u64,
    /// The record's stored bytes.
    pub data: Vec<u8>,
}

/// Spec-level picture of one record.
pub ghost struct RecordState {
    /// The address the record sits at.
    pub address: Seq<u8>,
    /// Whether the record is owned by this system.
    pub owned: bool,
    /// The balance held at the record's address.
    pub lamports: u64,
    /// The record's stored bytes.
    pub data: Seq<u8>,
}

impl View for RecordView {
    type V = RecordState;

    open spec fn view(&self) -> RecordState {
        RecordState {
            address: self.address@,
            owned: self.owned,
            lamports: self.lamports,
            data: self.data@,
        }
    }
}

/// The ensure step: bring the record into existence, correctly addressed
/// and owned, or verify it.
///
/// An unowned record must sit at the derived address; it is then created
/// along the funding path its balance selects, and the disambiguation byte
/// is written into its first byte. An owned record must reconstruct to its
/// own address from its stored disambiguation byte; nothing is changed and
/// no external call is issued.
pub open spec fn spec_ensure(
    rs: RecordState,
    authority: Seq<u8>,
    ns: Seq<u8>,
    sequence: u64,
    program_id: Seq<u8>,
    required: u64,
) -> Result<(u8, Seq<ExternalCall>, RecordState), OpError> {
    if !rs.owned {
        match spec_derive(authority, ns, sequence, program_id) {
            None => Err(OpError::AddressMismatch),
            Some((addr, bump)) => {
                if rs.address != addr {
                    Err(OpError::AddressMismatch)
                } else {
                    Ok(
                        (
                            bump,
                            spec_creation_plan(rs.lamports, required, BITMAP_ACCOUNT_SIZE as u64),
                            RecordState {
                                address: rs.address,
                                owned: true,
                                lamports: funded_balance(rs.lamports, required),
                                data: seq![bump] + zero_bitmap(),
                            },
                        ),
                    )
                }
            },
        }
    } else if rs.data.len() < BITMAP_ACCOUNT_SIZE {
        Err(OpError::RecordTooSmall)
    } else {
        match spec_reconstruct(authority, ns, sequence, rs.data[0], program_id) {
            None => Err(OpError::AddressMismatch),
            Some(a) => {
                if a != rs.address {
                    Err(OpError::AddressMismatch)
                } else {
                    Ok((rs.data[0], Seq::<ExternalCall>::empty(), rs))
                }
            },
        }
    }
}

/// The PreCreate transition on one record: permissionless, creates the
/// record if needed, never touches the bitmap.
pub open spec fn spec_process_create_bitmap(
    rs: RecordState,
    authority: Seq<u8>,
    ns: Seq<u8>,
    sequence: u64,
    program_id: Seq<u8>,
    required: u64,
    payer_signed: bool,
) -> (RecordState, Result<Seq<ExternalCall>, OpError>) {
    if !payer_signed {
        (rs, Err(OpError::MissingSigner))
    } else if ns.len() > MAX_NAMESPACE_LEN {
        (rs, Err(OpError::NamespaceTooLong))
    } else {
        match spec_ensure(rs, authority, ns, sequence, program_id, required) {
            Err(e) => (rs, Err(e)),
            Ok((bump, plan, rs1)) => (rs1, Ok(plan)),
        }
    }
}

/// The Consume transition on one record: requires both signatures, ensures
/// the record, then flips the sequence's bit, failing on replay.
///
/// On `AlreadyUsed` the ensure step's effects are kept (the record was
/// necessarily owned already, so there are none) and the bitmap is not
/// touched.
pub open spec fn spec_process_mark_used(
    rs: RecordState,
    authority: Seq<u8>,
    ns: Seq<u8>,
    sequence: u64,
    program_id: Seq<u8>,
    required: u64,
    payer_signed: bool,
    authority_signed: bool,
) -> (RecordState, Result<Seq<ExternalCall>, OpError>) {
    if !payer_signed || !authority_signed {
        (rs, Err(OpError::MissingSigner))
    } else if ns.len() > MAX_NAMESPACE_LEN {
        (rs, Err(OpError::NamespaceTooLong))
    } else {
        match spec_ensure(rs, authority, ns, sequence, program_id, required) {
            Err(e) => (rs, Err(e)),
            Ok((bump, plan, rs1)) => {
                let bitmap = rs1.data.subrange(1, BITMAP_ACCOUNT_SIZE as int);
                if seq_is_used(bitmap, sequence) {
                    (rs1, Err(OpError::AlreadyUsed))
                } else {
                    (
                        RecordState {
                            address: rs1.address,
                            owned: rs1.owned,
                            lamports: rs1.lamports,
                            data: seq![bump] + spec_set_bit(bitmap, sequence) + rs1.data.skip(
                                BITMAP_ACCOUNT_SIZE as int,
                            ),
                        },
                        Ok(plan),
                    )
                }
            },
        }
    }
}

/// The full request transition: decode, then dispatch on the opcode.
///
/// `None` stands for the statistically negligible case that the address
/// search finds no viable address for an unowned record; the on-chain
/// runtime aborts there.
pub open spec fn spec_process_request(
    rs: RecordState,
    payer_signed: bool,
    authority_signed: bool,
    authority: Seq<u8>,
    program_id: Seq<u8>,
    required: u64,
    data: Seq<u8>,
) -> Option<(RecordState, Result<Seq<ExternalCall>, RequestError>)> {
    match spec_decode(data) {
        Err(e) => Some((rs, Err(RequestError::Decode(e)))),
        Ok((opcode, ns, sequence)) => {
            if !rs.owned && spec_derive(authority, ns, sequence, program_id) is None {
                None
            } else {
                let step = if opcode == CREATE_BITMAP {
                    spec_process_create_bitmap(
                        rs,
                        authority,
                        ns,
                        sequence,
                        program_id,
                        required,
                        payer_signed,
                    )
                } else {
                    spec_process_mark_used(
                        rs,
                        authority,
                        ns,
                        sequence,
                        program_id,
                        required,
                        payer_signed,
                        authority_signed,
                    )
                };
                Some(
                    (
                        step.0,
                        match step.1 {
                            Ok(p) => Ok(p),
                            Err(e) => Err(RequestError::Op(e)),
                        },
                    ),
                )
            }
        },
    }
}

/// Ensure the record exists, is correctly addressed and owned, and is
/// funded; report the disambiguation byte and the external calls to issue.
pub fn init_bitmap_pda(
    record: &mut RecordView,
    authority: &Address,
    namespace: &[u8],
    sequence: u64,
    program_id: &Address,
    required_balance: u64,
) -> (r: Result<(u8, Vec<ExternalCall>), OpError>)
    requires
        !old(record).owned ==> spec_derive(
            authority@,
            namespace@,
            sequence,
            program_id@,
        ) is Some,
    ensures
        match r {
            Ok((bump, plan)) => spec_ensure(
                old(record)@,
                authority@,
                namespace@,
                sequence,
                program_id@,
                required_balance,
            ) matches Ok((b2, p2, rs2)) && bump == b2 && plan@ == p2 && final(record)@ == rs2,
            Err(e) => spec_ensure(
                old(record)@,
                authority@,
                namespace@,
                sequence,
                program_id@,
                required_balance,
            ) == Err::<(u8, Seq<ExternalCall>, RecordState), OpError>(e) && final(record)@ == old(
                record,
            )@,
        },
{
    if !record.owned {
        let seeds = BitmapPdaSeeds::new(namespace, sequence);
        let (expected, bump) = seeds.find_pda(authority, program_id);
        if !address_equal(&record.address, &expected) {
            return Err(OpError::AddressMismatch);
        }
        let plan = plan_creation(record.lamports, required_balance, BITMAP_ACCOUNT_SIZE as u64);
        record.owned = true;
        record.lamports = if record.lamports >= required_balance {
            record.lamports
        } else {
            required_balance
        };
        let fresh = BitmapAccount::new(bump);
        record.data = fresh.to_bytes();
        proof {
            assert(final(record).data@ =~= seq![bump] + zero_bitmap());
        }
        Ok((bump, plan))
    } else {
        if record.data.len() < BITMAP_ACCOUNT_SIZE {
            return Err(OpError::RecordTooSmall);
        }
        let bump = record.data[0];
        let seeds = BitmapPdaSeeds::new(namespace, sequence);
        match seeds.reconstruct_pda(authority, bump, program_id) {
            None => Err(OpError::AddressMismatch),
            Some(expected) => {
                if !address_equal(&record.address, &expected) {
                    return Err(OpError::AddressMismatch);
                }
                Ok((bump, Vec::new()))
            },
        }
    }
}

/// Process a PreCreate operation against its record.
pub fn process_create_bitmap(
    payer_is_signer: bool,
    authority: &Address,
    record: &mut RecordView,
    namespace: &[u8],
    sequence: u64,
    program_id: &Address,
    required_balance: u64,
) -> (r: Result<Vec<ExternalCall>, OpError>)
    requires
        (payer_is_signer && namespace@.len() <= MAX_NAMESPACE_LEN && !old(record).owned)
            ==> spec_derive(authority@, namespace@, sequence, program_id@) is Some,
    ensures
        ({
            let step = spec_process_create_bitmap(
                old(record)@,
                authority@,
                namespace@,
                sequence,
                program_id@,
                required_balance,
                payer_is_signer,
            );
            &&& final(record)@ == step.0
            &&& match r {
                Ok(plan) => step.1 == Ok::<Seq<ExternalCall>, OpError>(plan@),
                Err(e) => step.1 == Err::<Seq<ExternalCall>, OpError>(e),
            }
        }),
{
    if !payer_is_signer {
        return Err(OpError::MissingSigner);
    }
    if namespace.len() > MAX_NAMESPACE_LEN {
        return Err(OpError::NamespaceTooLong);
    }
    match init_bitmap_pda(record, authority, namespace, sequence, program_id, required_balance) {
        Ok((_bump, plan)) => Ok(plan),
        Err(e) => Err(e),
    }
}

/// Process a Consume operation against its record.
pub fn process_mark_used(
    payer_is_signer: bool,
    authority_is_signer: bool,
    authority: &Address,
    record: &mut RecordView,
    namespace: &[u8],
    sequence: u64,
    program_id: &Address,
    required_balance: u64,
) -> (r: Result<Vec<ExternalCall>, OpError>)
    requires
        (payer_is_signer && authority_is_signer && namespace@.len() <= MAX_NAMESPACE_LEN && !old(
            record,
        ).owned) ==> spec_derive(authority@, namespace@, sequence, program_id@) is Some,
    ensures
        ({
            let step = spec_process_mark_used(
                old(record)@,
                authority@,
                namespace@,
                sequence,
                program_id@,
                required_balance,
                payer_is_signer,
                authority_is_signer,
            );
            &&& final(record)@ == step.0
            &&& match r {
                Ok(plan) => step.1 == Ok::<Seq<ExternalCall>, OpError>(plan@),
                Err(e) => step.1 == Err::<Seq<ExternalCall>, OpError>(e),
            }
        }),
{
    if !payer_is_signer {
        return Err(OpError::MissingSigner);
    }
    if !authority_is_signer {
        return Err(OpError::MissingSigner);
    }
    if namespace.len() > MAX_NAMESPACE_LEN {
        return Err(OpError::NamespaceTooLong);
    }
    let ghost pre = record@;
    let (bump, plan) = match init_bitmap_pda(
        record,
        authority,
        namespace,
        sequence,
        program_id,
        required_balance,
    ) {
        Ok(p) => p,
        Err(e) => {
            return Err(e);
        },
    };
    let ghost rs1 = record@;
    let mut acct = match BitmapAccount::from_slice(record.data.as_slice()) {
        Some(a) => a,
        None => unreached(),
    };
    let was_used = acct.mark_used(sequence);
    if was_used {
        return Err(OpError::AlreadyUsed);
    }
    let mut new_data = acct.to_bytes();
    let mut k: usize = BITMAP_ACCOUNT_SIZE;
    let n = record.data.len();
    while k < n
        invariant
            BITMAP_ACCOUNT_SIZE <= k <= n,
            n == record.data@.len(),
            record@ == rs1,
            new_data@.len() == k,
            new_data@.subrange(0, BITMAP_ACCOUNT_SIZE as int) == seq![acct.bump]
                + acct.bitmap@,
            forall|j: int| BITMAP_ACCOUNT_SIZE <= j < k ==> new_data@[j] == record.data@[j],
            acct.wf(),
        decreases n - k,
    {
        let b = record.data[k];
        new_data.push(b);
        k += 1;
    }
    proof {
        assert(new_data@ =~= seq![acct.bump] + acct.bitmap@ + rs1.data.skip(
            BITMAP_ACCOUNT_SIZE as int,
        ));
        assert(acct.bump == bump);
        assert(rs1.data.subrange(1, BITMAP_ACCOUNT_SIZE as int) =~= spec_ensure(
            pre,
            authority@,
            namespace@,
            sequence,
            program_id@,
            required_balance,
        ).unwrap().2.data.subrange(1, BITMAP_ACCOUNT_SIZE as int));
    }
    record.data = new_data;
    Ok(plan)
}

/// Process a whole request against its record: decode the payload, then
/// run the decoded operation. `None` reports the (statistically
/// negligible) case that no viable address exists for an unowned record's
/// seeds.
pub fn process_request(
    payer_is_signer: bool,
    authority_is_signer: bool,
    authority: &Address,
    record: &mut RecordView,
    program_id: &Address,
    required_balance: u64,
    data: &[u8],
) -> (r: Option<Result<Vec<ExternalCall>, RequestError>>)
    ensures
        ({
            let step = spec_process_request(
                old(record)@,
                payer_is_signer,
                authority_is_signer,
                authority@,
                program_id@,
                required_balance,
                data@,
            );
            match r {
                None => step is None && final(record)@ == old(record)@,
                Some(res) => step matches Some((rs2, res2)) && final(record)@ == rs2 && (match res {
                    Ok(plan) => res2 == Ok::<Seq<ExternalCall>, RequestError>(plan@),
                    Err(e) => res2 == Err::<Seq<ExternalCall>, RequestError>(e),
                }),
            }
        }),
{
    let parsed = match Instruction::parse(data) {
        Ok(i) => i,
        Err(e) => {
            return Some(Err(RequestError::Decode(e)));
        },
    };
    match parsed {
        Instruction::CreateBitmap { namespace, sequence } => {
            if !record.owned {
                match try_derive_bitmap_pda(authority, namespace, sequence, program_id) {
                    Err(_) => unreached(),
                    Ok(None) => {
                        return None;
                    },
                    Ok(Some(_)) => {},
                }
            }
            match process_create_bitmap(
                payer_is_signer,
                authority,
                record,
                namespace,
                sequence,
                program_id,
                required_balance,
            ) {
                Ok(plan) => Some(Ok(plan)),
                Err(e) => Some(Err(RequestError::Op(e))),
            }
        },
        Instruction::MarkUsed { namespace, sequence } => {
            if !record.owned {
                match try_derive_bitmap_pda(authority, namespace, sequence, program_id) {
                    Err(_) => unreached(),
                    Ok(None) => {
                        return None;
                    },
                    Ok(Some(_)) => {},
                }
            }
            match process_mark_used(
                payer_is_signer,
                authority_is_signer,
                authority,
                record,
                namespace,
                sequence,
                program_id,
                required_balance,
            ) {
                Ok(plan) => Some(Ok(plan)),
                Err(e) => Some(Err(RequestError::Op(e))),
            }
        },
    }
}

} // verus!
