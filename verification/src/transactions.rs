//! Reading a round's stored transactions: which ORE instructions they hold,
//! the Deploy instructions decoded, and a summary over a round.

use vstd::prelude::*;
use vstd::string::*;
use crate::chain::{le_u32_at, le_u64_at, ore_program_bytes, ore_program_id, parse_pubkey, round_address, round_pda_key, parsed_pubkey, pubkey_text, pubkey_to_string, u32_from_le_bytes, u64_from_le_bytes};

verus! {

broadcast use vstd::string::group_string_axioms;

/// Tag byte of the ORE program's Deploy instruction.
pub const DEPLOY_TAG: u8 = 6;

/// Size of the Deploy instruction's arguments: an 8-byte amount and a
/// 4-byte square mask.
pub const DEPLOY_ARGS_SIZE: usize = 12;

/// An instruction of a transaction, as the stored JSON gives it.
#[derive(Debug)]
pub struct InstructionJson {
    pub program_id_index: Option<u64>,
    /// Base58 instruction data.
    pub data: Option<String>,
    /// Indexes into the account keys (`None` where an entry is not a number).
    pub accounts: Option<Vec<Option<u64>>>,
}

/// The message of a transaction, as the stored JSON gives it.
#[derive(Debug)]
pub struct MessageJson {
    /// The account keys (`None` where an entry is not a string).
    pub account_keys: Option<Vec<Option<String>>>,
    pub instructions: Option<Vec<InstructionJson>>,
}

/// A stored transaction as read from its JSON.
#[derive(Debug)]
pub struct TransactionJson {
    /// The error of a failed transaction, as text; `None` when it succeeded.
    pub failure: Option<String>,
    pub message: Option<MessageJson>,
    /// The inner instruction groups (`None` where a group has no list).
    pub inner_instructions: Option<Vec<Option<Vec<InstructionJson>>>>,
}

/// A stored transaction: its JSON read, or the reason it could not be.
#[derive(Debug)]
pub enum ParsedTransaction {
    Invalid(String),
    Valid(TransactionJson),
}

/// A Deploy instruction found in a transaction.
#[derive(Debug)]
pub struct DeployInstructionAnalysis {
    /// `outer` or `inner`.
    pub location: String,
    pub instruction_index: usize,
    pub signer: String,
    pub authority: String,
    pub miner: String,
    pub round_pda: String,
    pub amount_per_square: u64,
    pub squares_mask: u32,
    /// The squares deployed on.
    pub squares: Vec<u8>,
    pub matches_expected_round: bool,
}

/// Another ORE instruction found in a transaction.
#[derive(Debug)]
pub struct OtherOreInstruction {
    pub location: String,
    pub instruction_index: usize,
    pub instruction_tag: u8,
    pub instruction_name: String,
}

/// What an instruction of a transaction turned out to be.
#[derive(Debug)]
pub enum InstructionOutcome {
    /// Not an instruction of the ORE program.
    NotOre,
    /// An ORE instruction that could not be read.
    ParseError(String),
    Deploy(DeployInstructionAnalysis),
    Other(OtherOreInstruction),
}

/// The decimal text of `n`.
pub open spec fn decimal_text(n: nat) -> Seq<char>
    decreases n,
{
    if n < 10 {
        seq![(48 + n) as char]
    } else {
        decimal_text(n / 10).push((48 + n % 10) as char)
    }
}

/// What decoding a base58 text gives: its bytes, or the text of the error.
pub uninterp spec fn base58_decoding(text: Seq<char>) -> Result<Seq<u8>, Seq<char>>;

/// The name of the ORE instruction with this tag, if there is one (the
/// variants of the program's instruction enum with their tags).
pub open spec fn ore_instruction_label(tag: u8) -> Option<Seq<char>> {
    if tag == 0 {
        Some("Automate"@)
    } else if tag == 2 {
        Some("Checkpoint"@)
    } else if tag == 3 {
        Some("ClaimSOL"@)
    } else if tag == 4 {
        Some("ClaimORE"@)
    } else if tag == 5 {
        Some("Close"@)
    } else if tag == 6 {
        Some("Deploy"@)
    } else if tag == 8 {
        Some("Log"@)
    } else if tag == 9 {
        Some("Reset"@)
    } else if tag == 13 {
        Some("Buyback"@)
    } else if tag == 14 {
        Some("Wrap"@)
    } else if tag == 15 {
        Some("UpdateProtocolConfig"@)
    } else if tag == 19 {
        Some("NewVar"@)
    } else if tag == 24 {
        Some("Bury"@)
    } else if tag == 25 {
        Some("Liq"@)
    } else {
        None
    }
}

/// `bs58::decode(..).into_vec()`: the decoded bytes, or the error as text.
#[verifier::external_body]
pub(crate) fn base58_decode(text: &str) -> (r: Result<Vec<u8>, String>)
    ensures
        r matches Ok(v) ==> (base58_decoding(text@) matches Ok(b) && b == v@),
        r matches Err(e) ==> (base58_decoding(text@) matches Err(t) && t == e@),
{
    match bs58::decode(text).into_vec() {
        Ok(v) => Ok(v),
        Err(e) => Err(format!("{}", e)),
    }
}

/// `OreInstruction::try_from(tag)`, named as its derived `Debug` prints it:
/// the variant's name.
#[verifier::external_body]
fn ore_instruction_name(tag: u8) -> (r: Option<String>)
    ensures
        r matches Some(n) ==> ore_instruction_label(tag) == Some(n@),
        r is None ==> ore_instruction_label(tag) is None,
{
    match ore_api::instruction::OreInstruction::try_from(tag) {
        Ok(i) => Some(format!("{:?}", i)),
        Err(_) => None,
    }
}

/// The text of one decimal digit.
fn digit_str(d: usize) -> (s: &'static str)
    requires
        d < 10,
    ensures
        s@ == seq![(48 + d) as char],
{
    proof {
        reveal_strlit("0");
        reveal_strlit("1");
        reveal_strlit("2");
        reveal_strlit("3");
        reveal_strlit("4");
        reveal_strlit("5");
        reveal_strlit("6");
        reveal_strlit("7");
        reveal_strlit("8");
        reveal_strlit("9");
    }
    if d == 0 {
        "0"
    } else if d == 1 {
        "1"
    } else if d == 2 {
        "2"
    } else if d == 3 {
        "3"
    } else if d == 4 {
        "4"
    } else if d == 5 {
        "5"
    } else if d == 6 {
        "6"
    } else if d == 7 {
        "7"
    } else if d == 8 {
        "8"
    } else {
        "9"
    }
}

/// The decimal text of a number, as `usize`'s `Display` writes it.
fn usize_text(n: usize) -> (s: String)
    ensures
        s@ == decimal_text(n as nat),
    decreases n,
{
    if n < 10 {
        digit_str(n).to_owned()
    } else {
        let mut s = usize_text(n / 10);
        s.append(digit_str(n % 10));
        s
    }
}

/// The squares among `0..k` selected in `mask`.
pub open spec fn mask_squares(mask: u32, k: int) -> Seq<u8>
    decreases k,
{
    if k <= 0 {
        Seq::empty()
    } else if mask & (1u32 << ((k - 1) as u32)) != 0 {
        mask_squares(mask, k - 1).push((k - 1) as u8)
    } else {
        mask_squares(mask, k - 1)
    }
}

/// The squares of a mask come in increasing order and each is a square of
/// the board (below 25), so each indexes the board's per-square arrays.
pub proof fn lemma_mask_squares_ordered(mask: u32, k: int)
    requires
        0 <= k <= 25,
    ensures
        forall|i: int| 0 <= i < mask_squares(mask, k).len() ==> #[trigger] mask_squares(mask, k)[i] < k,
        forall|i: int, j: int| 0 <= i < j < mask_squares(mask, k).len() ==> mask_squares(mask, k)[i] < mask_squares(mask, k)[j],
    decreases k,
{
    if k > 0 {
        lemma_mask_squares_ordered(mask, k - 1);
        let prev = mask_squares(mask, k - 1);
        let cur = mask_squares(mask, k);
        assert(((k - 1) as u8) as int == k - 1);
        if mask & (1u32 << ((k - 1) as u32)) != 0 {
            assert(cur == prev.push((k - 1) as u8));
            assert forall|i: int, j: int| 0 <= i < j < cur.len() implies cur[i] < cur[j] by {
                if j == cur.len() - 1 {
                    assert(cur[i] == prev[i]);
                } else {
                    assert(cur[i] == prev[i] && cur[j] == prev[j]);
                }
            }
            assert forall|i: int| 0 <= i < cur.len() implies #[trigger] cur[i] < k by {
                if i < prev.len() {
                    assert(cur[i] == prev[i]);
                }
            }
        } else {
            assert(cur == prev);
        }
    }
}

/// The squares selected in a Deploy mask.
pub fn squares_of_mask(mask: u32) -> (v: Vec<u8>)
    ensures
        v@ == mask_squares(mask, 25),
{
    let mut v: Vec<u8> = Vec::new();
    let mut i: u32 = 0;
    while i < 25
        invariant
            i <= 25,
            v@ == mask_squares(mask, i as int),
        decreases 25 - i,
    {
        if mask & (1u32 << i) != 0 {
            v.push(i as u8);
        }
        i = i + 1;
    }
    v
}

/// The bytes of each key.
pub open spec fn key_views(keys: Seq<[u8; 32]>) -> Seq<Seq<u8>> {
    keys.map_values(|k: [u8; 32]| k@)
}

/// The key at entry `i` of an instruction's account list, if both exist.
pub open spec fn account_key(accounts: Seq<Option<u64>>, keys: Seq<Seq<u8>>, i: int) -> Option<Seq<u8>> {
    if 0 <= i < accounts.len() {
        match accounts[i] {
            Some(a) => if (a as usize as int) < keys.len() { Some(keys[a as usize as int]) } else { None },
            None => None,
        }
    } else {
        None
    }
}

/// The text of a key, or `?` without one.
pub open spec fn key_text(k: Option<Seq<u8>>) -> Seq<char> {
    match k {
        Some(b) => pubkey_text(b),
        None => "?"@,
    }
}

/// The message prefix of an instruction: `<location> ix <index>`.
pub open spec fn ix_prefix(location: Seq<char>, idx: usize) -> Seq<char> {
    location + " ix "@ + decimal_text(idx as nat)
}

/// The program of an instruction, if its index is a valid key index.
pub open spec fn program_of(ix: InstructionJson, keys: Seq<Seq<u8>>) -> Option<Seq<u8>> {
    match ix.program_id_index {
        Some(p) => if (p as usize as int) < keys.len() { Some(keys[p as usize as int]) } else { None },
        None => None,
    }
}

/// `o` is what instruction `ix` (at `location`, index `idx`) turns out to be:
/// not ORE; an ORE instruction without data, with data that is not base58
/// or empty, a Deploy too short or without accounts (each a parse error with
/// its message); a Deploy with its amount, mask, squares and account keys
/// (signer, authority, miner, round at entries 0, 1, 4, 5); or another ORE
/// instruction with its tag and name (`Unknown(<tag>)` for unknown tags).
pub open spec fn outcome_of(
    o: InstructionOutcome,
    ix: InstructionJson,
    keys: Seq<Seq<u8>>,
    expected_round: Seq<u8>,
    program: Seq<u8>,
    location: Seq<char>,
    idx: usize,
) -> bool {
    let prefix = ix_prefix(location, idx);
    match program_of(ix, keys) {
        None => o is NotOre,
        Some(p) => if p != program {
            o is NotOre
        } else {
            match ix.data {
                None => o matches InstructionOutcome::ParseError(m) && m@ == prefix + ": missing data"@,
                Some(d) => match base58_decoding(d@) {
                    Err(e) => o matches InstructionOutcome::ParseError(m) && m@ == prefix + ": base58 decode error: "@ + e,
                    Ok(bytes) => if bytes.len() == 0 {
                        o matches InstructionOutcome::ParseError(m) && m@ == prefix + ": empty data"@
                    } else if bytes[0] == DEPLOY_TAG {
                        if bytes.len() < 1 + DEPLOY_ARGS_SIZE {
                            o matches InstructionOutcome::ParseError(m) && m@ == prefix + ": Deploy data too short ("@
                                + decimal_text(bytes.len()) + " < "@ + decimal_text(13) + ")"@
                        } else {
                            match ix.accounts {
                                None => o matches InstructionOutcome::ParseError(m) && m@ == prefix + ": missing accounts"@,
                                Some(accs) => o matches InstructionOutcome::Deploy(dep)
                                    && dep.location@ == location
                                    && dep.instruction_index == idx
                                    && dep.signer@ == key_text(account_key(accs@, keys, 0))
                                    && dep.authority@ == key_text(account_key(accs@, keys, 1))
                                    && dep.miner@ == key_text(account_key(accs@, keys, 4))
                                    && dep.round_pda@ == key_text(account_key(accs@, keys, 5))
                                    && dep.amount_per_square == le_u64_at(bytes, 1)
                                    && dep.squares_mask == le_u32_at(bytes, 9)
                                    && dep.squares@ == mask_squares(le_u32_at(bytes, 9), 25)
                                    && dep.matches_expected_round == (account_key(accs@, keys, 5) == Some(expected_round)),
                            }
                        }
                    } else {
                        o matches InstructionOutcome::Other(other)
                            && other.location@ == location
                            && other.instruction_index == idx
                            && other.instruction_tag == bytes[0]
                            && other.instruction_name@ == match ore_instruction_label(bytes[0]) {
                                Some(n) => n,
                                None => "Unknown("@ + decimal_text(bytes[0] as nat) + ")"@,
                            }
                    },
                },
            }
        },
    }
}

/// `<location> ix <idx><suffix>`.
fn ix_message(location: &str, idx: usize, suffix: &str) -> (m: String)
    ensures
        m@ == ix_prefix(location@, idx) + suffix@,
{
    let mut m = location.to_owned();
    m.append(" ix ");
    let n = usize_text(idx);
    m.append(n.as_str());
    m.append(suffix);
    m
}

/// The key at entry `i` of the account list, if both exist.
fn key_of_account(accounts: &Vec<Option<u64>>, keys: &Vec<[u8; 32]>, i: usize) -> (r: Option<[u8; 32]>)
    ensures
        r matches Some(k) ==> account_key(accounts@, key_views(keys@), i as int) == Some(k@),
        r is None ==> account_key(accounts@, key_views(keys@), i as int) is None,
{
    if i >= accounts.len() {
        return None;
    }
    match accounts[i] {
        Some(a) => {
            let idx = a as usize;
            if idx < keys.len() {
                Some(keys[idx])
            } else {
                None
            }
        },
        None => None,
    }
}

/// The text of a key, or `?` without one.
fn text_of_key(k: Option<[u8; 32]>) -> (s: String)
    ensures
        s@ == key_text(match k {
            Some(b) => Some(b@),
            None => None,
        }),
{
    match k {
        Some(b) => pubkey_to_string(b),
        None => "?".to_owned(),
    }
}

fn same_key(a: &[u8; 32], b: &[u8; 32]) -> (r: bool)
    ensures
        r == (a@ == b@),
{
    let mut i: usize = 0;
    while i < 32
        invariant
            i <= 32,
            forall|t: int| 0 <= t < i ==> a@[t] == b@[t],
        decreases 32 - i,
    {
        if a[i] != b[i] {
            return false;
        }
        i = i + 1;
    }
    assert(a@ =~= b@);
    true
}

/// Decode a Deploy instruction whose data and accounts are present.
fn deploy_outcome(
    bytes: &Vec<u8>,
    accounts: &Vec<Option<u64>>,
    keys: &Vec<[u8; 32]>,
    expected_round: &[u8; 32],
    location: &str,
    idx: usize,
) -> (d: DeployInstructionAnalysis)
    requires
        bytes@.len() >= 1 + DEPLOY_ARGS_SIZE,
    ensures
        d.location@ == location@,
        d.instruction_index == idx,
        d.signer@ == key_text(account_key(accounts@, key_views(keys@), 0)),
        d.authority@ == key_text(account_key(accounts@, key_views(keys@), 1)),
        d.miner@ == key_text(account_key(accounts@, key_views(keys@), 4)),
        d.round_pda@ == key_text(account_key(accounts@, key_views(keys@), 5)),
        d.amount_per_square == le_u64_at(bytes@, 1),
        d.squares_mask == le_u32_at(bytes@, 9),
        d.squares@ == mask_squares(le_u32_at(bytes@, 9), 25),
        d.matches_expected_round == (account_key(accounts@, key_views(keys@), 5) == Some(expected_round@)),
{
    let amount_bytes: [u8; 8] = [bytes[1], bytes[2], bytes[3], bytes[4], bytes[5], bytes[6], bytes[7], bytes[8]];
    let mask_bytes: [u8; 4] = [bytes[9], bytes[10], bytes[11], bytes[12]];
    proof {
        assert(amount_bytes@ =~= bytes@.subrange(1, 9));
        assert(mask_bytes@ =~= bytes@.subrange(9, 13));
    }
    let amount = u64_from_le_bytes(amount_bytes);
    let mask = u32_from_le_bytes(mask_bytes);
    let round_key = key_of_account(accounts, keys, 5);
    let matches = match round_key {
        Some(k) => same_key(&k, expected_round),
        None => false,
    };
    DeployInstructionAnalysis {
        location: location.to_owned(),
        instruction_index: idx,
        signer: text_of_key(key_of_account(accounts, keys, 0)),
        authority: text_of_key(key_of_account(accounts, keys, 1)),
        miner: text_of_key(key_of_account(accounts, keys, 4)),
        round_pda: text_of_key(round_key),
        amount_per_square: amount,
        squares_mask: mask,
        squares: squares_of_mask(mask),
        matches_expected_round: matches,
    }
}

/// What an instruction turns out to be (see `outcome_of`).
pub fn instruction_outcome(
    ix: &InstructionJson,
    account_keys: &Vec<[u8; 32]>,
    expected_round_pda: &[u8; 32],
    ore_program_id: &[u8; 32],
    location: &str,
    ix_idx: usize,
) -> (o: InstructionOutcome)
    ensures
        outcome_of(o, *ix, key_views(account_keys@), expected_round_pda@, ore_program_id@, location@, ix_idx),
{
    let program_index = match ix.program_id_index {
        Some(p) => p as usize,
        None => return InstructionOutcome::NotOre,
    };
    if program_index >= account_keys.len() {
        return InstructionOutcome::NotOre;
    }
    if !same_key(&account_keys[program_index], ore_program_id) {
        return InstructionOutcome::NotOre;
    }
    let data_text = match &ix.data {
        Some(d) => d,
        None => return InstructionOutcome::ParseError(ix_message(location, ix_idx, ": missing data")),
    };
    let bytes = match base58_decode(data_text.as_str()) {
        Ok(b) => b,
        Err(e) => {
            let mut m = ix_message(location, ix_idx, ": base58 decode error: ");
            m.append(e.as_str());
            return InstructionOutcome::ParseError(m);
        },
    };
    if bytes.len() == 0 {
        return InstructionOutcome::ParseError(ix_message(location, ix_idx, ": empty data"));
    }
    let tag = bytes[0];
    let name = ore_instruction_name(tag);
    if tag == DEPLOY_TAG {
        if bytes.len() < 1 + DEPLOY_ARGS_SIZE {
            let mut m = ix_message(location, ix_idx, ": Deploy data too short (");
            m.append(usize_text(bytes.len()).as_str());
            m.append(" < ");
            m.append(usize_text(1 + DEPLOY_ARGS_SIZE).as_str());
            m.append(")");
            return InstructionOutcome::ParseError(m);
        }
        match &ix.accounts {
            None => InstructionOutcome::ParseError(ix_message(location, ix_idx, ": missing accounts")),
            Some(accounts) => InstructionOutcome::Deploy(
                deploy_outcome(&bytes, accounts, account_keys, expected_round_pda, location, ix_idx),
            ),
        }
    } else {
        let instruction_name = match name {
            Some(n) => n,
            None => {
                let mut n = "Unknown(".to_owned();
                n.append(usize_text(tag as usize).as_str());
                n.append(")");
                n
            },
        };
        InstructionOutcome::Other(OtherOreInstruction {
            location: location.to_owned(),
            instruction_index: ix_idx,
            instruction_tag: tag,
            instruction_name,
        })
    }
}

/// What was found in one transaction.
#[derive(Debug)]
pub struct TransactionAnalysis {
    pub signature: String,
    pub slot: u64,
    pub block_time: i64,
    /// The first account key.
    pub signer: Option<String>,
    pub has_ore_program: bool,
    pub instructions_count: usize,
    pub inner_instructions_count: usize,
    pub deploy_instructions: Vec<DeployInstructionAnalysis>,
    pub other_ore_instructions: Vec<OtherOreInstruction>,
    pub parse_errors: Vec<String>,
    /// `json_error`, `failed`, `malformed`, `deploy_matched`,
    /// `deploy_wrong_round`, `ore_non_deploy`, `ore_no_ix_found` or `no_ore`.
    pub status: String,
}

/// The Deploy instruction of one outcome, if it is one.
pub open spec fn deploy_part(o: InstructionOutcome) -> Seq<DeployInstructionAnalysis> {
    match o {
        InstructionOutcome::Deploy(d) => seq![d],
        _ => Seq::empty(),
    }
}

/// The other ORE instruction of one outcome, if it is one.
pub open spec fn other_part(o: InstructionOutcome) -> Seq<OtherOreInstruction> {
    match o {
        InstructionOutcome::Other(x) => seq![x],
        _ => Seq::empty(),
    }
}

/// The parse error of one outcome, if it is one.
pub open spec fn error_part(o: InstructionOutcome) -> Seq<String> {
    match o {
        InstructionOutcome::ParseError(m) => seq![m],
        _ => Seq::empty(),
    }
}

/// The Deploy instructions among the outcomes, in order.
pub open spec fn deploys_of(outs: Seq<InstructionOutcome>) -> Seq<DeployInstructionAnalysis>
    decreases outs.len(),
{
    if outs.len() == 0 {
        Seq::empty()
    } else {
        deploys_of(outs.drop_last()) + deploy_part(outs.last())
    }
}

/// The other ORE instructions among the outcomes, in order.
pub open spec fn others_of(outs: Seq<InstructionOutcome>) -> Seq<OtherOreInstruction>
    decreases outs.len(),
{
    if outs.len() == 0 {
        Seq::empty()
    } else {
        others_of(outs.drop_last()) + other_part(outs.last())
    }
}

/// The parse errors among the outcomes, in order.
pub open spec fn errors_of(outs: Seq<InstructionOutcome>) -> Seq<String>
    decreases outs.len(),
{
    if outs.len() == 0 {
        Seq::empty()
    } else {
        errors_of(outs.drop_last()) + error_part(outs.last())
    }
}

/// Record an outcome in the analysis of its transaction.
pub fn record_outcome(analysis: &mut TransactionAnalysis, o: InstructionOutcome)
    ensures
        final(analysis).deploy_instructions@ == old(analysis).deploy_instructions@ + deploy_part(o),
        final(analysis).other_ore_instructions@ == old(analysis).other_ore_instructions@ + other_part(o),
        final(analysis).parse_errors@ == old(analysis).parse_errors@ + error_part(o),
        final(analysis).signature == old(analysis).signature,
        final(analysis).slot == old(analysis).slot,
        final(analysis).block_time == old(analysis).block_time,
        final(analysis).signer == old(analysis).signer,
        final(analysis).has_ore_program == old(analysis).has_ore_program,
        final(analysis).instructions_count == old(analysis).instructions_count,
        final(analysis).inner_instructions_count == old(analysis).inner_instructions_count,
        final(analysis).status == old(analysis).status,
{
    match o {
        InstructionOutcome::NotOre => {
            assert(old(analysis).deploy_instructions@ + Seq::<DeployInstructionAnalysis>::empty() =~= old(analysis).deploy_instructions@);
            assert(old(analysis).other_ore_instructions@ + Seq::<OtherOreInstruction>::empty() =~= old(analysis).other_ore_instructions@);
            assert(old(analysis).parse_errors@ + Seq::<String>::empty() =~= old(analysis).parse_errors@);
        },
        InstructionOutcome::ParseError(m) => {
            analysis.parse_errors.push(m);
            assert(analysis.parse_errors@ =~= old(analysis).parse_errors@ + seq![m]);
            assert(old(analysis).deploy_instructions@ + Seq::<DeployInstructionAnalysis>::empty() =~= old(analysis).deploy_instructions@);
            assert(old(analysis).other_ore_instructions@ + Seq::<OtherOreInstruction>::empty() =~= old(analysis).other_ore_instructions@);
        },
        InstructionOutcome::Deploy(d) => {
            analysis.deploy_instructions.push(d);
            assert(analysis.deploy_instructions@ =~= old(analysis).deploy_instructions@ + seq![d]);
            assert(old(analysis).other_ore_instructions@ + Seq::<OtherOreInstruction>::empty() =~= old(analysis).other_ore_instructions@);
            assert(old(analysis).parse_errors@ + Seq::<String>::empty() =~= old(analysis).parse_errors@);
        },
        InstructionOutcome::Other(x) => {
            analysis.other_ore_instructions.push(x);
            assert(analysis.other_ore_instructions@ =~= old(analysis).other_ore_instructions@ + seq![x]);
            assert(old(analysis).deploy_instructions@ + Seq::<DeployInstructionAnalysis>::empty() =~= old(analysis).deploy_instructions@);
            assert(old(analysis).parse_errors@ + Seq::<String>::empty() =~= old(analysis).parse_errors@);
        },
    }
}

/// An instruction with where it stands: `outer` or `inner`, and its index.
pub type Located = (InstructionJson, Seq<char>, usize);

/// The instructions of a list, each with its location and index.
pub open spec fn located(ixs: Seq<InstructionJson>, location: Seq<char>) -> Seq<Located> {
    Seq::new(ixs.len(), |i: int| (ixs[i], location, i as usize))
}

/// The inner instructions of all groups, in order, indexed within their group.
pub open spec fn inner_located(groups: Seq<Option<Vec<InstructionJson>>>) -> Seq<Located>
    decreases groups.len(),
{
    if groups.len() == 0 {
        Seq::empty()
    } else {
        inner_located(groups.drop_last()) + match groups.last() {
            Some(g) => located(g@, "inner"@),
            None => Seq::empty(),
        }
    }
}

/// Number of inner instructions over all groups.
pub open spec fn inner_count(groups: Seq<Option<Vec<InstructionJson>>>) -> int
    decreases groups.len(),
{
    if groups.len() == 0 {
        0
    } else {
        inner_count(groups.drop_last()) + match groups.last() {
            Some(g) => g@.len() as int,
            None => 0int,
        }
    }
}

/// The keys among the account key texts that parse, in order.
pub open spec fn parsed_keys(texts: Seq<Option<String>>) -> Seq<Seq<u8>>
    decreases texts.len(),
{
    if texts.len() == 0 {
        Seq::empty()
    } else {
        parsed_keys(texts.drop_last()) + match texts.last() {
            Some(t) => match parsed_pubkey(t@) {
                Some(k) => seq![k],
                None => Seq::empty(),
            },
            None => Seq::empty(),
        }
    }
}

/// The errors of the account key texts that do not parse, in order.
pub open spec fn key_errors(texts: Seq<Option<String>>) -> Seq<Seq<char>>
    decreases texts.len(),
{
    if texts.len() == 0 {
        Seq::empty()
    } else {
        key_errors(texts.drop_last()) + match texts.last() {
            Some(t) => match parsed_pubkey(t@) {
                Some(k) => Seq::empty(),
                None => seq!["Invalid pubkey: "@ + t@],
            },
            None => seq!["Account key not a string"@],
        }
    }
}

/// The texts of some strings.
pub open spec fn texts(v: Seq<String>) -> Seq<Seq<char>> {
    v.map_values(|s: String| s@)
}

/// The status of an analyzed transaction from what it holds.
pub open spec fn analysis_status(deploys: Seq<DeployInstructionAnalysis>, others: Seq<OtherOreInstruction>, has_ore_program: bool) -> Seq<char> {
    if deploys.len() > 0 {
        if exists|i: int| 0 <= i < deploys.len() && (#[trigger] deploys[i]).matches_expected_round {
            "deploy_matched"@
        } else {
            "deploy_wrong_round"@
        }
    } else if others.len() > 0 {
        "ore_non_deploy"@
    } else if has_ore_program {
        "ore_no_ix_found"@
    } else {
        "no_ore"@
    }
}

/// A transaction with a Deploy instruction for the expected round is
/// `deploy_matched`, however many of its other Deploys are for other
/// rounds; it is `deploy_wrong_round` exactly when it has Deploys and none
/// of them is for the expected round.
pub proof fn lemma_status_deploys(deploys: Seq<DeployInstructionAnalysis>, others: Seq<OtherOreInstruction>, has_ore_program: bool)
    ensures
        (exists|i: int| 0 <= i < deploys.len() && (#[trigger] deploys[i]).matches_expected_round)
            ==> analysis_status(deploys, others, has_ore_program) == "deploy_matched"@,
        analysis_status(deploys, others, has_ore_program) == "deploy_wrong_round"@
            <==> (deploys.len() > 0 && forall|i: int| 0 <= i < deploys.len() ==> !(#[trigger] deploys[i]).matches_expected_round),
        analysis_status(deploys, others, has_ore_program) == "deploy_matched"@
            <==> exists|i: int| 0 <= i < deploys.len() && (#[trigger] deploys[i]).matches_expected_round,
{
    reveal_strlit("deploy_matched");
    reveal_strlit("deploy_wrong_round");
    reveal_strlit("ore_non_deploy");
    reveal_strlit("ore_no_ix_found");
    reveal_strlit("no_ore");
    assert("deploy_matched"@ != "deploy_wrong_round"@) by {
        assert("deploy_matched"@[7] != "deploy_wrong_round"@[7]);
    }
    assert("deploy_matched"@ != "ore_non_deploy"@) by {
        assert("deploy_matched"@[0] != "ore_non_deploy"@[0]);
    }
    assert("deploy_matched"@ != "ore_no_ix_found"@) by {
        assert("deploy_matched"@[0] != "ore_no_ix_found"@[0]);
    }
    assert("deploy_matched"@ != "no_ore"@) by {
        assert("deploy_matched"@.len() != "no_ore"@.len());
    }
    assert("deploy_wrong_round"@ != "ore_non_deploy"@) by {
        assert("deploy_wrong_round"@[0] != "ore_non_deploy"@[0]);
    }
    assert("deploy_wrong_round"@ != "ore_no_ix_found"@) by {
        assert("deploy_wrong_round"@[0] != "ore_no_ix_found"@[0]);
    }
    assert("deploy_wrong_round"@ != "no_ore"@) by {
        assert("deploy_wrong_round"@.len() != "no_ore"@.len());
    }
    if deploys.len() == 0 {
        assert(!exists|i: int| 0 <= i < deploys.len() && (#[trigger] deploys[i]).matches_expected_round);
    }
}

/// `outs` are the outcomes of the located instructions `l`.
pub open spec fn outcomes_of(
    outs: Seq<InstructionOutcome>,
    l: Seq<Located>,
    keys: Seq<Seq<u8>>,
    expected_round: Seq<u8>,
    program: Seq<u8>,
) -> bool {
    &&& outs.len() == l.len()
    &&& forall|k: int| 0 <= k < l.len() ==> outcome_of(#[trigger] outs[k], l[k].0, keys, expected_round, program, l[k].1, l[k].2)
}

/// An analysis with nothing found yet.
fn empty_analysis(signature: String, slot: u64, block_time: i64) -> (a: TransactionAnalysis)
    ensures
        a.signature == signature,
        a.slot == slot,
        a.block_time == block_time,
        a.signer is None,
        !a.has_ore_program,
        a.instructions_count == 0,
        a.inner_instructions_count == 0,
        a.deploy_instructions@.len() == 0,
        a.other_ore_instructions@.len() == 0,
        a.parse_errors@.len() == 0,
        a.status@ == "unknown"@,
{
    TransactionAnalysis {
        signature,
        slot,
        block_time,
        signer: None,
        has_ore_program: false,
        instructions_count: 0,
        inner_instructions_count: 0,
        deploy_instructions: Vec::new(),
        other_ore_instructions: Vec::new(),
        parse_errors: Vec::new(),
        status: "unknown".to_owned(),
    }
}

/// An analysis stopped by one error, with that error and status.
fn stopped_analysis(signature: String, slot: u64, block_time: i64, error: String, status: &str) -> (a: TransactionAnalysis)
    ensures
        a.signature == signature,
        a.slot == slot,
        a.block_time == block_time,
        a.signer is None,
        !a.has_ore_program,
        a.instructions_count == 0,
        a.inner_instructions_count == 0,
        a.deploy_instructions@.len() == 0,
        a.other_ore_instructions@.len() == 0,
        a.parse_errors@ == seq![error],
        a.status@ == status@,
{
    let mut a = empty_analysis(signature, slot, block_time);
    a.parse_errors.push(error);
    a.status = status.to_owned();
    a
}

fn prefixed(prefix: &str, text: &str) -> (s: String)
    ensures
        s@ == prefix@ + text@,
{
    let mut s = prefix.to_owned();
    s.append(text);
    s
}

/// Parse the account key texts into keys, collecting the errors.
fn parse_account_keys(texts_v: &Vec<Option<String>>, errors: &mut Vec<String>) -> (keys: Vec<[u8; 32]>)
    ensures
        key_views(keys@) == parsed_keys(texts_v@),
        texts(final(errors)@) == texts(old(errors)@) + key_errors(texts_v@),
{
    let mut keys: Vec<[u8; 32]> = Vec::new();
    let mut i: usize = 0;
    proof {
        assert(texts(errors@) =~= texts(old(errors)@) + key_errors(texts_v@.take(0)));
        assert(key_views(keys@) =~= parsed_keys(texts_v@.take(0)));
    }
    while i < texts_v.len()
        invariant
            i <= texts_v@.len(),
            key_views(keys@) == parsed_keys(texts_v@.take(i as int)),
            texts(errors@) == texts(old(errors)@) + key_errors(texts_v@.take(i as int)),
        decreases texts_v@.len() - i,
    {
        proof {
            assert(texts_v@.take(i + 1).drop_last() =~= texts_v@.take(i as int));
        }
        let ghost before_keys = keys@;
        let ghost before_errors = errors@;
        match &texts_v[i] {
            None => {
                errors.push("Account key not a string".to_owned());
                proof {
                    assert(texts(errors@) =~= texts(before_errors) + seq!["Account key not a string"@]);
                    assert(key_views(keys@) =~= parsed_keys(texts_v@.take(i + 1)));
                }
            },
            Some(t) => match parse_pubkey(t.as_str()) {
                Some(k) => {
                    keys.push(k);
                    proof {
                        assert(key_views(keys@) =~= key_views(before_keys) + seq![k@]);
                        assert(texts(errors@) =~= texts(old(errors)@) + key_errors(texts_v@.take(i + 1)));
                    }
                },
                None => {
                    errors.push(prefixed("Invalid pubkey: ", t.as_str()));
                    proof {
                        assert(texts(errors@) =~= texts(before_errors) + seq!["Invalid pubkey: "@ + t@]);
                        assert(key_views(keys@) =~= parsed_keys(texts_v@.take(i + 1)));
                    }
                },
            },
        }
        i = i + 1;
    }
    assert(texts_v@.take(texts_v@.len() as int) =~= texts_v@);
    keys
}

/// Analyze the instructions of a list, recording each outcome.
fn analyze_list(
    ixs: &Vec<InstructionJson>,
    keys: &Vec<[u8; 32]>,
    expected_round_pda: &[u8; 32],
    ore_program_id: &[u8; 32],
    location: &str,
    analysis: &mut TransactionAnalysis,
    Ghost(outs): Ghost<Seq<InstructionOutcome>>,
) -> (new_outs: Ghost<Seq<InstructionOutcome>>)
    requires
        old(analysis).deploy_instructions@ == deploys_of(outs),
        old(analysis).other_ore_instructions@ == others_of(outs),
    ensures
        new_outs@.len() == outs.len() + ixs@.len(),
        new_outs@.subrange(0, outs.len() as int) == outs,
        outcomes_of(new_outs@.subrange(outs.len() as int, new_outs@.len() as int), located(ixs@, location@),
            key_views(keys@), expected_round_pda@, ore_program_id@),
        final(analysis).deploy_instructions@ == deploys_of(new_outs@),
        final(analysis).other_ore_instructions@ == others_of(new_outs@),
        final(analysis).parse_errors@ == old(analysis).parse_errors@ + errors_of(new_outs@.subrange(outs.len() as int, new_outs@.len() as int)),
        final(analysis).signature == old(analysis).signature,
        final(analysis).slot == old(analysis).slot,
        final(analysis).block_time == old(analysis).block_time,
        final(analysis).signer == old(analysis).signer,
        final(analysis).has_ore_program == old(analysis).has_ore_program,
        final(analysis).instructions_count == old(analysis).instructions_count,
        final(analysis).inner_instructions_count == old(analysis).inner_instructions_count,
        final(analysis).status == old(analysis).status,
{
    let ghost mut all = outs;
    let ghost start_errors = analysis.parse_errors@;
    let mut i: usize = 0;
    proof {
        assert(all.subrange(outs.len() as int, all.len() as int) =~= Seq::<InstructionOutcome>::empty());
        assert(start_errors + errors_of(Seq::<InstructionOutcome>::empty()) =~= start_errors);
    }
    while i < ixs.len()
        invariant
            i <= ixs@.len(),
            all.len() == outs.len() + i,
            all.subrange(0, outs.len() as int) == outs,
            outcomes_of(all.subrange(outs.len() as int, all.len() as int), located(ixs@, location@).take(i as int),
                key_views(keys@), expected_round_pda@, ore_program_id@),
            analysis.deploy_instructions@ == deploys_of(all),
            analysis.other_ore_instructions@ == others_of(all),
            analysis.parse_errors@ == start_errors + errors_of(all.subrange(outs.len() as int, all.len() as int)),
            analysis.signature == old(analysis).signature,
            analysis.slot == old(analysis).slot,
            analysis.block_time == old(analysis).block_time,
            analysis.signer == old(analysis).signer,
            analysis.has_ore_program == old(analysis).has_ore_program,
            analysis.instructions_count == old(analysis).instructions_count,
            analysis.inner_instructions_count == old(analysis).inner_instructions_count,
            analysis.status == old(analysis).status,
            start_errors == old(analysis).parse_errors@,
        decreases ixs@.len() - i,
    {
        let o = instruction_outcome(&ixs[i], keys, expected_round_pda, ore_program_id, location, i);
        let ghost og = o;
        let ghost prev_all = all;
        record_outcome(analysis, o);
        proof {
            all = all.push(og);
            assert(all.drop_last() =~= prev_all);
            let tail = all.subrange(outs.len() as int, all.len() as int);
            assert(tail.drop_last() =~= prev_all.subrange(outs.len() as int, prev_all.len() as int));
            assert(tail.last() == og);
            assert(all.subrange(0, outs.len() as int) =~= prev_all.subrange(0, outs.len() as int));
            assert(located(ixs@, location@).take(i + 1) =~= located(ixs@, location@).take(i as int).push((ixs@[i as int], location@, i)));
            assert forall|k: int| 0 <= k < i + 1 implies outcome_of(
                #[trigger] tail[k],
                located(ixs@, location@).take(i + 1)[k].0,
                key_views(keys@),
                expected_round_pda@,
                ore_program_id@,
                located(ixs@, location@).take(i + 1)[k].1,
                located(ixs@, location@).take(i + 1)[k].2,
            ) by {
                if k < i {
                    assert(tail[k] == prev_all.subrange(outs.len() as int, prev_all.len() as int)[k]);
                }
            }
            assert(analysis.parse_errors@ =~= start_errors + errors_of(tail));
        }
        i = i + 1;
    }
    proof {
        assert(located(ixs@, location@).take(ixs@.len() as int) =~= located(ixs@, location@));
    }
    Ghost(all)
}

proof fn lemma_errors_of_concat(a: Seq<InstructionOutcome>, b: Seq<InstructionOutcome>)
    ensures
        errors_of(a + b) == errors_of(a) + errors_of(b),
    decreases b.len(),
{
    if b.len() == 0 {
        assert(a + b =~= a);
        assert(errors_of(a) + errors_of(b) =~= errors_of(a));
    } else {
        lemma_errors_of_concat(a, b.drop_last());
        assert((a + b).drop_last() =~= a + b.drop_last());
        assert((a + b).last() == b.last());
        assert(errors_of(a + b) =~= errors_of(a) + errors_of(b));
    }
}

proof fn lemma_outcomes_concat(
    a: Seq<InstructionOutcome>,
    la: Seq<Located>,
    b: Seq<InstructionOutcome>,
    lb: Seq<Located>,
    keys: Seq<Seq<u8>>,
    expected_round: Seq<u8>,
    program: Seq<u8>,
)
    requires
        outcomes_of(a, la, keys, expected_round, program),
        outcomes_of(b, lb, keys, expected_round, program),
    ensures
        outcomes_of(a + b, la + lb, keys, expected_round, program),
{
    assert forall|k: int| 0 <= k < (la + lb).len() implies outcome_of(
        #[trigger] (a + b)[k],
        (la + lb)[k].0,
        keys,
        expected_round,
        program,
        (la + lb)[k].1,
        (la + lb)[k].2,
    ) by {
        if k < la.len() {
            assert((a + b)[k] == a[k]);
        } else {
            assert((a + b)[k] == b[k - la.len()]);
        }
    }
}

/// The outer instructions of a message, located.
pub open spec fn outer_located(m: MessageJson) -> Seq<Located> {
    match m.instructions {
        Some(v) => located(v@, "outer"@),
        None => Seq::empty(),
    }
}

/// The inner instructions of a transaction, located.
pub open spec fn all_inner_located(t: TransactionJson) -> Seq<Located> {
    match t.inner_instructions {
        Some(gs) => inner_located(gs@),
        None => Seq::empty(),
    }
}

/// The analysis of a stored transaction whose instructions were read: keys
/// parsed from the account key texts, the signer (first key), whether the
/// ORE program is among the keys, the instruction counts, the outcome of
/// every outer then inner instruction, and the status these give.
pub open spec fn analysis_of_instructions(
    a: TransactionAnalysis,
    t: TransactionJson,
    m: MessageJson,
    key_texts: Seq<Option<String>>,
    expected_round: Seq<u8>,
    program: Seq<u8>,
) -> bool {
    let keys = parsed_keys(key_texts);
    let l = outer_located(m) + all_inner_located(t);
    &&& (keys.len() == 0 ==> a.signer is None)
    &&& (keys.len() > 0 ==> (a.signer matches Some(sg) && sg@ == pubkey_text(keys[0])))
    &&& a.has_ore_program == keys.contains(program)
    &&& a.instructions_count == match m.instructions {
        Some(v) => v@.len(),
        None => 0,
    }
    &&& a.inner_instructions_count == match t.inner_instructions {
        Some(gs) => inner_count(gs@),
        None => 0,
    }
    &&& exists|outs: Seq<InstructionOutcome>| {
        &&& outcomes_of(outs, l, keys, expected_round, program)
        &&& a.deploy_instructions@ == deploys_of(outs)
        &&& a.other_ore_instructions@ == others_of(outs)
        &&& texts(a.parse_errors@) == key_errors(key_texts) + texts(errors_of(outs))
        &&& a.status@ == analysis_status(deploys_of(outs), others_of(outs), a.has_ore_program)
    }
}

/// Whether the ORE program is among the keys.
fn has_program(keys: &Vec<[u8; 32]>, program: &[u8; 32]) -> (b: bool)
    ensures
        b == key_views(keys@).contains(program@),
{
    let mut i: usize = 0;
    while i < keys.len()
        invariant
            i <= keys@.len(),
            forall|t: int| 0 <= t < i ==> keys@[t]@ != program@,
        decreases keys@.len() - i,
    {
        if same_key(&keys[i], program) {
            assert(key_views(keys@)[i as int] == program@);
            return true;
        }
        i = i + 1;
    }
    proof {
        if key_views(keys@).contains(program@) {
            let t = choose|t: int| 0 <= t < key_views(keys@).len() && key_views(keys@)[t] == program@;
            assert(keys@[t]@ == program@);
        }
    }
    false
}

/// The status of an analysis from what it holds.
fn status_of(a: &TransactionAnalysis) -> (s: String)
    ensures
        s@ == analysis_status(a.deploy_instructions@, a.other_ore_instructions@, a.has_ore_program),
{
    if a.deploy_instructions.len() > 0 {
        let mut i: usize = 0;
        while i < a.deploy_instructions.len()
            invariant
                i <= a.deploy_instructions@.len(),
                forall|t: int| 0 <= t < i ==> !(#[trigger] a.deploy_instructions@[t]).matches_expected_round,
            decreases a.deploy_instructions@.len() - i,
        {
            if a.deploy_instructions[i].matches_expected_round {
                return "deploy_matched".to_owned();
            }
            i = i + 1;
        }
        "deploy_wrong_round".to_owned()
    } else if a.other_ore_instructions.len() > 0 {
        "ore_non_deploy".to_owned()
    } else if a.has_ore_program {
        "ore_no_ix_found".to_owned()
    } else {
        "no_ore".to_owned()
    }
}

/// Whether `a` is the analysis of the stored transaction `tx` (with this
/// signature, slot and block time) for the round whose account is
/// `expected_round`: an unreadable, failed or malformed transaction stops
/// with one error; otherwise see `analysis_of_instructions`, with the ORE
/// program's address.
pub open spec fn transaction_analyzed(
    a: TransactionAnalysis,
    signature: String,
    slot: u64,
    block_time: i64,
    tx: ParsedTransaction,
    expected_round: Seq<u8>,
) -> bool {
    &&& a.signature == signature
    &&& a.slot == slot
    &&& a.block_time == block_time
    &&& match tx {
        ParsedTransaction::Invalid(e) => texts(a.parse_errors@) == seq!["JSON parse error: "@ + e@]
            && a.status@ == "json_error"@
            && a.deploy_instructions@.len() == 0 && a.other_ore_instructions@.len() == 0,
        ParsedTransaction::Valid(t) => match t.failure {
            Some(f) => texts(a.parse_errors@) == seq!["Transaction failed: "@ + f@] && a.status@ == "failed"@
                && a.deploy_instructions@.len() == 0 && a.other_ore_instructions@.len() == 0,
            None => match t.message {
                None => texts(a.parse_errors@) == seq!["Missing transaction.message"@] && a.status@ == "malformed"@
                    && a.deploy_instructions@.len() == 0 && a.other_ore_instructions@.len() == 0,
                Some(m) => match m.account_keys {
                    None => texts(a.parse_errors@) == seq!["Missing accountKeys"@] && a.status@ == "malformed"@
                        && a.deploy_instructions@.len() == 0 && a.other_ore_instructions@.len() == 0,
                    Some(ks) => analysis_of_instructions(a, t, m, ks@, expected_round, ore_program_bytes()),
                },
            },
        },
    }
}

/// Number of instructions, outer and inner, that a stored transaction lists.
pub open spec fn listed_instructions(tx: ParsedTransaction) -> int {
    match tx {
        ParsedTransaction::Invalid(_) => 0,
        ParsedTransaction::Valid(t) => {
            (match t.message {
                Some(m) => match m.instructions {
                    Some(v) => v@.len() as int,
                    None => 0int,
                },
                None => 0int,
            }) + match t.inner_instructions {
                Some(gs) => inner_count(gs@),
                None => 0int,
            }
        },
    }
}

/// Analyze a stored transaction for the round whose account is
/// `expected_round_pda`.
pub fn analyze_transaction(
    signature: String,
    slot: u64,
    block_time: i64,
    tx: &ParsedTransaction,
    expected_round_pda: &[u8; 32],
) -> (a: TransactionAnalysis)
    requires
        listed_instructions(*tx) <= usize::MAX,
    ensures
        transaction_analyzed(a, signature, slot, block_time, *tx, expected_round_pda@),
        a.deploy_instructions@.len() <= listed_instructions(*tx),
{
    proof {
        lemma_listed_nonneg(*tx);
    }
    let t = match tx {
        ParsedTransaction::Invalid(e) => {
            let a = stopped_analysis(signature, slot, block_time, prefixed("JSON parse error: ", e.as_str()), "json_error");
            assert(texts(a.parse_errors@) =~= seq!["JSON parse error: "@ + e@]);
            return a;
        },
        ParsedTransaction::Valid(t) => t,
    };
    match &t.failure {
        Some(f) => {
            let a = stopped_analysis(signature, slot, block_time, prefixed("Transaction failed: ", f.as_str()), "failed");
            assert(texts(a.parse_errors@) =~= seq!["Transaction failed: "@ + f@]);
            return a;
        },
        None => {},
    }
    let m = match &t.message {
        Some(m) => m,
        None => {
            let a = stopped_analysis(signature, slot, block_time, "Missing transaction.message".to_owned(), "malformed");
            assert(texts(a.parse_errors@) =~= seq!["Missing transaction.message"@]);
            return a;
        },
    };
    let key_texts = match &m.account_keys {
        Some(k) => k,
        None => {
            let a = stopped_analysis(signature, slot, block_time, "Missing accountKeys".to_owned(), "malformed");
            assert(texts(a.parse_errors@) =~= seq!["Missing accountKeys"@]);
            return a;
        },
    };
    let program = ore_program_id();
    let ore_program_id = &program;
    let mut a = empty_analysis(signature, slot, block_time);
    proof {
        assert(texts(a.parse_errors@) =~= Seq::<Seq<char>>::empty());
    }
    let keys = parse_account_keys(key_texts, &mut a.parse_errors);
    let ghost key_errs = a.parse_errors@;
    if keys.len() > 0 {
        a.signer = Some(pubkey_to_string(keys[0]));
        assert(key_views(keys@)[0] == keys@[0]@);
    }
    a.has_ore_program = has_program(&keys, ore_program_id);
    let ghost signer = a.signer;
    let ghost has_ore = a.has_ore_program;
    let ghost mut outs: Seq<InstructionOutcome> = Seq::empty();
    proof {
        assert(a.deploy_instructions@ =~= deploys_of(outs));
        assert(a.other_ore_instructions@ =~= others_of(outs));
        assert(a.parse_errors@ =~= key_errs + errors_of(outs));
    }
    match &m.instructions {
        Some(ixs) => {
            a.instructions_count = ixs.len();
            let Ghost(o) = analyze_list(ixs, &keys, expected_round_pda, ore_program_id, "outer", &mut a, Ghost(outs));
            proof {
                assert(o.subrange(0, 0) =~= Seq::<InstructionOutcome>::empty());
                assert(o.subrange(0, o.len() as int) =~= o);
                outs = o;
            }
        },
        None => {},
    }
    proof {
        assert(outcomes_of(outs, outer_located(*m), key_views(keys@), expected_round_pda@, ore_program_id@));
        assert(a.parse_errors@ == key_errs + errors_of(outs));
    }
    match &t.inner_instructions {
        Some(groups) => {
            let mut j: usize = 0;
            let mut count: usize = 0;
            proof {
                assert(groups@.take(0) =~= Seq::<Option<Vec<InstructionJson>>>::empty());
                assert(outer_located(*m) + inner_located(groups@.take(0)) =~= outer_located(*m));
            }
            while j < groups.len()
                invariant
                    j <= groups@.len(),
                    inner_count(groups@) <= usize::MAX,
                    count == inner_count(groups@.take(j as int)),
                    outcomes_of(outs, outer_located(*m) + inner_located(groups@.take(j as int)), key_views(keys@),
                        expected_round_pda@, ore_program_id@),
                    a.deploy_instructions@ == deploys_of(outs),
                    a.other_ore_instructions@ == others_of(outs),
                    a.parse_errors@ == key_errs + errors_of(outs),
                    a.signature == signature,
                    a.slot == slot,
                    a.block_time == block_time,
                    a.signer == signer,
                    a.has_ore_program == has_ore,
                    a.instructions_count == match m.instructions {
                        Some(v) => v@.len(),
                        None => 0,
                    },
                    a.inner_instructions_count == count,
                decreases groups@.len() - j,
            {
                proof {
                    assert(groups@.take(j + 1).drop_last() =~= groups@.take(j as int));
                    lemma_inner_count_prefix(groups@, j + 1);
                }
                match &groups[j] {
                    Some(g) => {
                        count = count + g.len();
                        a.inner_instructions_count = count;
                        let ghost before = outs;
                        let Ghost(o) = analyze_list(g, &keys, expected_round_pda, ore_program_id, "inner", &mut a, Ghost(outs));
                        proof {
                            let tail = o.subrange(before.len() as int, o.len() as int);
                            assert(o =~= before + tail);
                            lemma_outcomes_concat(before, outer_located(*m) + inner_located(groups@.take(j as int)),
                                tail, located(g@, "inner"@), key_views(keys@), expected_round_pda@, ore_program_id@);
                            assert(outer_located(*m) + inner_located(groups@.take(j + 1)) =~= (outer_located(*m)
                                + inner_located(groups@.take(j as int))) + located(g@, "inner"@));
                            lemma_errors_of_concat(before, tail);
                            outs = o;
                        }
                    },
                    None => {
                        proof {
                            assert(outer_located(*m) + inner_located(groups@.take(j + 1)) =~= outer_located(*m)
                                + inner_located(groups@.take(j as int)));
                        }
                    },
                }
                j = j + 1;
            }
            proof {
                assert(groups@.take(groups@.len() as int) =~= groups@);
            }
        },
        None => {
            proof {
                assert(outer_located(*m) + all_inner_located(*t) =~= outer_located(*m));
            }
        },
    }
    a.status = status_of(&a);
    proof {
        assert(texts(key_errs + errors_of(outs)) =~= texts(key_errs) + texts(errors_of(outs)));
        assert(texts(key_errs) =~= key_errors(key_texts@));
        assert(outcomes_of(outs, outer_located(*m) + all_inner_located(*t), key_views(keys@), expected_round_pda@, ore_program_id@));
        assert(analysis_of_instructions(a, *t, *m, key_texts@, expected_round_pda@, ore_program_id@));
        lemma_deploys_within(outs);
        if t.inner_instructions is Some {
            lemma_inner_located_len(t.inner_instructions->0@);
        }
    }
    a
}

proof fn lemma_inner_count_prefix(groups: Seq<Option<Vec<InstructionJson>>>, k: int)
    requires
        0 <= k <= groups.len(),
    ensures
        0 <= inner_count(groups.take(k)) <= inner_count(groups),
    decreases groups.len() - k,
{
    if k < groups.len() {
        lemma_inner_count_prefix(groups, k + 1);
        assert(groups.take(k + 1).drop_last() =~= groups.take(k));
    } else {
        assert(groups.take(k) =~= groups);
    }
    lemma_inner_count_nonneg(groups.take(k));
}

proof fn lemma_listed_nonneg(tx: ParsedTransaction)
    ensures
        listed_instructions(tx) >= 0,
{
    if let ParsedTransaction::Valid(t) = tx {
        if let Some(gs) = t.inner_instructions {
            lemma_inner_count_nonneg(gs@);
        }
    }
}

proof fn lemma_inner_located_len(groups: Seq<Option<Vec<InstructionJson>>>)
    ensures
        inner_located(groups).len() == inner_count(groups),
    decreases groups.len(),
{
    if groups.len() > 0 {
        lemma_inner_located_len(groups.drop_last());
    }
}

proof fn lemma_deploys_within(outs: Seq<InstructionOutcome>)
    ensures
        deploys_of(outs).len() <= outs.len(),
    decreases outs.len(),
{
    if outs.len() > 0 {
        lemma_deploys_within(outs.drop_last());
    }
}

proof fn lemma_inner_count_nonneg(groups: Seq<Option<Vec<InstructionJson>>>)
    ensures
        inner_count(groups) >= 0,
    decreases groups.len(),
{
    if groups.len() > 0 {
        lemma_inner_count_nonneg(groups.drop_last());
    }
}

/// A stored transaction of a round with its JSON read.
#[derive(Debug)]
pub struct StoredTransaction {
    pub signature: String,
    pub slot: u64,
    pub block_time: i64,
    pub parsed: ParsedTransaction,
}

/// Paging of the transaction viewer.
#[derive(Debug)]
pub struct TransactionViewerQuery {
    pub limit: Option<usize>,
    pub offset: Option<usize>,
}

/// Counts over a page of analyzed transactions.
#[derive(Debug)]
pub struct TransactionSummary {
    pub total_txns: usize,
    pub with_deploy_ix: usize,
    pub without_deploy_ix: usize,
    pub parse_errors: usize,
    pub wrong_round: usize,
    pub matched_round: usize,
    pub total_deployments: usize,
}

/// The transactions of a round, analyzed, with a summary.
#[derive(Debug)]
pub struct TransactionViewerResponse {
    pub round_id: u64,
    pub total_transactions: usize,
    pub transactions: Vec<TransactionAnalysis>,
    pub summary: TransactionSummary,
}

/// A transaction that could not be analyzed.
#[derive(Debug)]
pub struct FailedTransaction {
    pub signature: String,
    pub slot: u64,
    pub error: String,
}

/// A deployment with no automation state stored for it.
#[derive(Debug)]
pub struct MissingAutomationState {
    pub signature: String,
    pub ix_index: u8,
    pub miner: String,
    pub authority: String,
}

/// How often a program was invoked over a round.
#[derive(Debug)]
pub struct ProgramUsageSummary {
    pub program: String,
    pub name: String,
    pub invocation_count: usize,
}

/// What was deployed on one square over a round.
#[derive(Debug)]
pub struct SquareDeploymentInfo {
    pub square: u8,
    pub deployment_count: usize,
    pub total_lamports: u64,
}

/// Number of analyses with at least one Deploy instruction.
pub open spec fn count_with_deploys(s: Seq<TransactionAnalysis>) -> nat
    decreases s.len(),
{
    if s.len() == 0 {
        0
    } else {
        count_with_deploys(s.drop_last()) + if s.last().deploy_instructions@.len() > 0 { 1nat } else { 0nat }
    }
}

/// Number of analyses with no ORE instruction found.
pub open spec fn count_without_ore_instructions(s: Seq<TransactionAnalysis>) -> nat
    decreases s.len(),
{
    if s.len() == 0 {
        0
    } else {
        count_without_ore_instructions(s.drop_last()) + if s.last().deploy_instructions@.len() == 0
            && s.last().other_ore_instructions@.len() == 0 { 1nat } else { 0nat }
    }
}

/// Number of analyses with at least one parse error.
pub open spec fn count_with_errors(s: Seq<TransactionAnalysis>) -> nat
    decreases s.len(),
{
    if s.len() == 0 {
        0
    } else {
        count_with_errors(s.drop_last()) + if s.last().parse_errors@.len() > 0 { 1nat } else { 0nat }
    }
}

/// Number of Deploy instructions for the expected round.
pub open spec fn matched_in(d: Seq<DeployInstructionAnalysis>) -> nat
    decreases d.len(),
{
    if d.len() == 0 {
        0
    } else {
        matched_in(d.drop_last()) + if d.last().matches_expected_round { 1nat } else { 0nat }
    }
}

/// Number of Deploy instructions over all analyses.
pub open spec fn deploys_total(s: Seq<TransactionAnalysis>) -> nat
    decreases s.len(),
{
    if s.len() == 0 {
        0
    } else {
        deploys_total(s.drop_last()) + s.last().deploy_instructions@.len()
    }
}

/// Number of Deploy instructions for the expected round over all analyses.
pub open spec fn matched_total(s: Seq<TransactionAnalysis>) -> nat
    decreases s.len(),
{
    if s.len() == 0 {
        0
    } else {
        matched_total(s.drop_last()) + matched_in(s.last().deploy_instructions@)
    }
}

/// Whether `r` summarizes the analyses `s` of a round with `total`
/// transactions stored.
pub open spec fn summarizes(r: TransactionSummary, total: usize, s: Seq<TransactionAnalysis>) -> bool {
    &&& r.total_txns == total
    &&& r.with_deploy_ix == count_with_deploys(s)
    &&& r.without_deploy_ix == count_without_ore_instructions(s)
    &&& r.parse_errors == count_with_errors(s)
    &&& r.matched_round == matched_total(s)
    &&& r.total_deployments == matched_total(s)
    &&& r.wrong_round == deploys_total(s) - matched_total(s)
}

proof fn lemma_matched_in_bound(d: Seq<DeployInstructionAnalysis>)
    ensures
        matched_in(d) <= d.len(),
    decreases d.len(),
{
    if d.len() > 0 {
        lemma_matched_in_bound(d.drop_last());
    }
}

proof fn lemma_counts_bound(s: Seq<TransactionAnalysis>)
    ensures
        count_with_deploys(s) <= s.len(),
        count_without_ore_instructions(s) <= s.len(),
        count_with_errors(s) <= s.len(),
        matched_total(s) <= deploys_total(s),
    decreases s.len(),
{
    if s.len() > 0 {
        lemma_counts_bound(s.drop_last());
        lemma_matched_in_bound(s.last().deploy_instructions@);
    }
}

/// A summary splits the analyses it counts: none is counted both with and
/// without Deploy instructions, and every Deploy instruction is counted
/// once, for the expected round or for another.
pub proof fn lemma_summary_partition(r: TransactionSummary, total: usize, s: Seq<TransactionAnalysis>)
    requires
        summarizes(r, total, s),
    ensures
        r.with_deploy_ix + r.without_deploy_ix <= s.len(),
        r.matched_round + r.wrong_round == deploys_total(s),
        r.parse_errors <= s.len(),
{
    lemma_with_without_bound(s);
    lemma_counts_bound(s);
}

proof fn lemma_with_without_bound(s: Seq<TransactionAnalysis>)
    ensures
        count_with_deploys(s) + count_without_ore_instructions(s) <= s.len(),
    decreases s.len(),
{
    if s.len() > 0 {
        lemma_with_without_bound(s.drop_last());
    }
}

/// Count the Deploy instructions for the expected round.
fn count_matched(d: &Vec<DeployInstructionAnalysis>) -> (n: usize)
    ensures
        n == matched_in(d@),
{
    let mut n: usize = 0;
    let mut j: usize = 0;
    while j < d.len()
        invariant
            j <= d@.len(),
            n == matched_in(d@.take(j as int)),
        decreases d@.len() - j,
    {
        proof {
            assert(d@.take(j + 1).drop_last() =~= d@.take(j as int));
            lemma_matched_in_bound(d@.take(j as int));
        }
        if d[j].matches_expected_round {
            n = n + 1;
        }
        j = j + 1;
    }
    assert(d@.take(d@.len() as int) =~= d@);
    n
}

/// Summarize a page of analyzed transactions of a round with `total`
/// transactions stored: how many have Deploy instructions, how many have no
/// ORE instruction, how many have parse errors, and how many Deploy
/// instructions are for the expected round and how many are not.
pub fn summarize_transactions(total: usize, analyses: &Vec<TransactionAnalysis>) -> (r: TransactionSummary)
    requires
        deploys_total(analyses@) <= usize::MAX,
    ensures
        summarizes(r, total, analyses@),
{
    let mut r = TransactionSummary {
        total_txns: total,
        with_deploy_ix: 0,
        without_deploy_ix: 0,
        parse_errors: 0,
        wrong_round: 0,
        matched_round: 0,
        total_deployments: 0,
    };
    let mut deploys: usize = 0;
    let mut i: usize = 0;
    while i < analyses.len()
        invariant
            i <= analyses@.len(),
            deploys_total(analyses@) <= usize::MAX,
            deploys == deploys_total(analyses@.take(i as int)),
            summarizes(r, total, analyses@.take(i as int)),
        decreases analyses@.len() - i,
    {
        let ghost prev = analyses@.take(i as int);
        proof {
            assert(analyses@.take(i + 1).drop_last() =~= prev);
            lemma_counts_bound(analyses@.take(i + 1));
            lemma_deploys_total_prefix(analyses@, i + 1);
            lemma_counts_bound(prev);
        }
        let a = &analyses[i];
        if a.deploy_instructions.len() == 0 && a.other_ore_instructions.len() == 0 {
            r.without_deploy_ix = r.without_deploy_ix + 1;
        } else if a.deploy_instructions.len() > 0 {
            r.with_deploy_ix = r.with_deploy_ix + 1;
        }
        if a.parse_errors.len() > 0 {
            r.parse_errors = r.parse_errors + 1;
        }
        let matched = count_matched(&a.deploy_instructions);
        proof {
            lemma_matched_in_bound(a.deploy_instructions@);
        }
        r.matched_round = r.matched_round + matched;
        r.total_deployments = r.total_deployments + matched;
        deploys = deploys + a.deploy_instructions.len();
        r.wrong_round = r.wrong_round + (a.deploy_instructions.len() - matched);
        i = i + 1;
    }
    assert(analyses@.take(analyses@.len() as int) =~= analyses@);
    r
}

proof fn lemma_deploys_total_prefix(s: Seq<TransactionAnalysis>, k: int)
    requires
        0 <= k <= s.len(),
    ensures
        deploys_total(s.take(k)) <= deploys_total(s),
    decreases s.len() - k,
{
    if k < s.len() {
        lemma_deploys_total_prefix(s, k + 1);
        assert(s.take(k + 1).drop_last() =~= s.take(k));
    } else {
        assert(s.take(k) =~= s);
    }
}

/// The page of the viewer: from the offset (0 by default) on, at most the
/// limit (100 by default) of the `total` transactions.
pub fn viewer_page(total: usize, query: &TransactionViewerQuery) -> (r: (usize, usize))
    ensures
        r.0 == (match query.offset {
            Some(o) => if o <= total { o } else { total },
            None => 0,
        }),
        r.1 == (match query.limit {
            Some(l) => if r.0 + l <= total { r.0 + l } else { total as int },
            None => if r.0 + 100 <= total { r.0 + 100 } else { total as int },
        }),
{
    let limit = match query.limit {
        Some(l) => l,
        None => 100,
    };
    let offset = match query.offset {
        Some(o) => o,
        None => 0,
    };
    let start = if offset <= total { offset } else { total };
    let end = if limit <= total - start { start + limit } else { total };
    (start, end)
}

/// The page of the full analysis: from the offset (0 by default) on, at
/// most the limit (500 by default, never more than 1000) of the `total`
/// transactions.
pub fn full_analysis_page(total: usize, query: &TransactionViewerQuery) -> (r: (usize, usize))
    ensures
        r.0 == (match query.offset {
            Some(o) => if o <= total { o } else { total },
            None => 0,
        }),
        r.1 == ({
            let limit: int = match query.limit {
                Some(l) => if l <= 1000 { l as int } else { 1000 },
                None => 500,
            };
            if r.0 + limit <= total { r.0 + limit } else { total as int }
        }),
{
    let limit = match query.limit {
        Some(l) => if l <= 1000 { l } else { 1000 },
        None => 500,
    };
    let offset = match query.offset {
        Some(o) => o,
        None => 0,
    };
    let start = if offset <= total { offset } else { total };
    let end = if limit <= total - start { start + limit } else { total };
    (start, end)
}

/// Instructions listed over stored transactions.
pub open spec fn instruction_total(txs: Seq<StoredTransaction>) -> int
    decreases txs.len(),
{
    if txs.len() == 0 {
        0
    } else {
        instruction_total(txs.drop_last()) + listed_instructions(txs.last().parsed)
    }
}

proof fn lemma_instruction_total_prefix(txs: Seq<StoredTransaction>, k: int)
    requires
        0 <= k <= txs.len(),
    ensures
        0 <= instruction_total(txs.take(k)) <= instruction_total(txs),
    decreases txs.len() - k,
{
    if k < txs.len() {
        lemma_instruction_total_prefix(txs, k + 1);
        assert(txs.take(k + 1).drop_last() =~= txs.take(k));
        assert(txs.take(k + 1).last() == txs[k]);
        lemma_listed_nonneg(txs[k].parsed);
        lemma_instruction_total_nonneg(txs.take(k));
    } else {
        assert(txs.take(k) =~= txs);
        lemma_instruction_total_nonneg(txs);
    }
}

proof fn lemma_instruction_total_nonneg(txs: Seq<StoredTransaction>)
    ensures
        instruction_total(txs) >= 0,
    decreases txs.len(),
{
    if txs.len() > 0 {
        lemma_instruction_total_nonneg(txs.drop_last());
        lemma_listed_nonneg(txs.last().parsed);
    }
}

/// The transactions of round `round_id` for the viewer: the page that the
/// query selects, each analyzed for the round's account, and the summary of
/// that page.
pub fn get_round_transactions(
    round_id: u64,
    txs: Vec<StoredTransaction>,
    query: &TransactionViewerQuery,
) -> (r: TransactionViewerResponse)
    requires
        instruction_total(txs@) <= usize::MAX,
    ensures
        r.round_id == round_id,
        r.total_transactions == txs@.len(),
        ({
            let (start, end) = (
                (match query.offset {
                    Some(o) => if o <= txs@.len() { o as int } else { txs@.len() as int },
                    None => 0int,
                }),
                (match query.limit {
                    Some(l) => l as int,
                    None => 100int,
                }),
            );
            let stop = if start + end <= txs@.len() { start + end } else { txs@.len() as int };
            &&& r.transactions@.len() == stop - start
            &&& forall|k: int| 0 <= k < r.transactions@.len() ==> {
                let tx = #[trigger] txs@[start + k];
                transaction_analyzed(r.transactions@[k], tx.signature, tx.slot, tx.block_time, tx.parsed,
                    round_address(round_id))
            }
        }),
        summarizes(r.summary, txs@.len() as usize, r.transactions@),
{
    let total = txs.len();
    let expected = round_pda_key(round_id);
    let (start, end) = viewer_page(total, query);
    let mut transactions: Vec<TransactionAnalysis> = Vec::new();
    let mut i: usize = start;
    proof {
        lemma_instruction_total_prefix(txs@, start as int);
    }
    while i < end
        invariant
            start <= i <= end <= txs@.len(),
            instruction_total(txs@) <= usize::MAX,
            transactions@.len() == i - start,
            deploys_total(transactions@) <= instruction_total(txs@.take(i as int)),
            forall|k: int| 0 <= k < transactions@.len() ==> {
                let tx = #[trigger] txs@[start + k];
                transaction_analyzed(transactions@[k], tx.signature, tx.slot, tx.block_time, tx.parsed,
                    expected@)
            },
        decreases end - i,
    {
        proof {
            assert(txs@.take(i + 1).drop_last() =~= txs@.take(i as int));
            lemma_instruction_total_prefix(txs@, i + 1);
            lemma_instruction_total_prefix(txs@, i as int);
        }
        let tx = &txs[i];
        let a = analyze_transaction(tx.signature.clone(), tx.slot, tx.block_time, &tx.parsed, &expected);
        let ghost prev = transactions@;
        transactions.push(a);
        proof {
            assert(transactions@.drop_last() =~= prev);
            assert forall|k: int| 0 <= k < transactions@.len() implies {
                let tx = #[trigger] txs@[start + k];
                transaction_analyzed(transactions@[k], tx.signature, tx.slot, tx.block_time, tx.parsed,
                    expected@)
            } by {
                if k < prev.len() {
                    assert(transactions@[k] == prev[k]);
                }
            }
        }
        i = i + 1;
    }
    proof {
        lemma_instruction_total_prefix(txs@, end as int);
    }
    let summary = summarize_transactions(total, &transactions);
    TransactionViewerResponse { round_id, total_transactions: total, transactions, summary }
}

/// Paging of the list of rounds with stored transactions.
#[derive(Debug)]
pub struct RoundsWithTransactionsQuery {
    pub page: Option<u32>,
    pub limit: Option<u32>,
}

/// The page (1 by default), the limit (50 by default, at most 200) and the
/// offset (the rows of the pages before) of a query for the rounds with
/// stored transactions.
pub fn rounds_with_transactions_paging(query: &RoundsWithTransactionsQuery) -> (r: (u32, u32, u32))
    requires
        ({
            let page: int = match query.page { Some(p) => p as int, None => 1 };
            let limit: int = match query.limit { Some(l) => if l <= 200 { l as int } else { 200 }, None => 50 };
            (if page >= 1 { page - 1 } else { 0 }) * limit <= u32::MAX
        }),
    ensures
        r.0 == match query.page { Some(p) => p, None => 1 },
        r.1 == match query.limit { Some(l) => if l <= 200 { l } else { 200 }, None => 50 },
        r.2 == (if r.0 >= 1 { r.0 - 1 } else { 0 }) * r.1,
{
    let page = match query.page {
        Some(p) => p,
        None => 1,
    };
    let limit = match query.limit {
        Some(l) => if l <= 200 { l } else { 200 },
        None => 50,
    };
    let before = if page >= 1 { page - 1 } else { 0 };
    (page, limit, before * limit)
}

/// A Deploy instruction found by the quick scan of a transaction: the keys
/// at entries 0 (the authority) and 2 (the miner) of its account list, and
/// its index among the outer instructions (its low byte).
#[derive(Debug)]
pub struct FastDeployInfo {
    pub authority: String,
    pub miner: String,
    pub ix_index: u8,
}

/// The authority and miner keys of an outer instruction that is a Deploy of
/// the ORE program with both keys present; `None` for any other instruction.
pub open spec fn fast_deploy(ix: InstructionJson, keys: Seq<Seq<u8>>) -> Option<(Seq<u8>, Seq<u8>)> {
    if program_of(ix, keys) != Some(ore_program_bytes()) {
        None
    } else {
        match ix.data {
            None => None,
            Some(d) => match base58_decoding(d@) {
                Err(_) => None,
                Ok(bytes) => if bytes.len() == 0 || bytes[0] != DEPLOY_TAG || bytes.len() < 1 + DEPLOY_ARGS_SIZE {
                    None
                } else {
                    match ix.accounts {
                        None => None,
                        Some(accs) => match (account_key(accs@, keys, 0), account_key(accs@, keys, 2)) {
                            (Some(a), Some(m)) => Some((a, m)),
                            _ => None,
                        },
                    }
                },
            },
        }
    }
}

/// The view of a quick-scan result: authority text, miner text, index.
pub open spec fn fast_view(f: FastDeployInfo) -> (Seq<char>, Seq<char>, u8) {
    (f.authority@, f.miner@, f.ix_index)
}

/// The Deploy instructions that the quick scan finds among outer
/// instructions, in order.
pub open spec fn fast_deploys(ixs: Seq<InstructionJson>, keys: Seq<Seq<u8>>) -> Seq<(Seq<char>, Seq<char>, u8)>
    decreases ixs.len(),
{
    if ixs.len() == 0 {
        Seq::empty()
    } else {
        fast_deploys(ixs.drop_last(), keys) + match fast_deploy(ixs.last(), keys) {
            Some((a, m)) => seq![(pubkey_text(a), pubkey_text(m), ((ixs.len() - 1) as usize) as u8)],
            None => Seq::empty(),
        }
    }
}

/// Quick scan of a stored transaction for the Deploy instructions among its
/// outer instructions: an unreadable transaction, one without a message and
/// one without an instruction list are errors; account keys that are not
/// valid are skipped, and a missing key list counts as empty.
pub fn extract_deploy_instructions_fast(tx: &ParsedTransaction, _expected_round: u64) -> (r: Result<Vec<FastDeployInfo>, String>)
    ensures
        match *tx {
            ParsedTransaction::Invalid(e) => r matches Err(m) && m@ == "JSON parse error: "@ + e@,
            ParsedTransaction::Valid(t) => match t.message {
                None => r matches Err(m) && m@ == "Missing message"@,
                Some(msg) => match msg.instructions {
                    None => r matches Err(m) && m@ == "Missing instructions"@,
                    Some(ixs) => r matches Ok(v) && v@.map_values(|f: FastDeployInfo| fast_view(f)) == fast_deploys(ixs@,
                        match msg.account_keys {
                            Some(ks) => parsed_keys(ks@),
                            None => Seq::empty(),
                        }),
                },
            },
        },
{
    let t = match tx {
        ParsedTransaction::Invalid(e) => return Err(prefixed("JSON parse error: ", e.as_str())),
        ParsedTransaction::Valid(t) => t,
    };
    let message = match &t.message {
        Some(m) => m,
        None => return Err("Missing message".to_owned()),
    };
    let mut scratch: Vec<String> = Vec::new();
    let keys: Vec<[u8; 32]> = match &message.account_keys {
        Some(ks) => parse_account_keys(ks, &mut scratch),
        None => Vec::new(),
    };
    proof {
        if message.account_keys is None {
            assert(key_views(keys@) =~= Seq::<Seq<u8>>::empty());
        }
    }
    let instructions = match &message.instructions {
        Some(ixs) => ixs,
        None => return Err("Missing instructions".to_owned()),
    };
    let program = ore_program_id();
    let mut deploys: Vec<FastDeployInfo> = Vec::new();
    let mut i: usize = 0;
    proof {
        assert(deploys@.map_values(|f: FastDeployInfo| fast_view(f)) =~= fast_deploys(instructions@.take(0), key_views(keys@)));
    }
    while i < instructions.len()
        invariant
            i <= instructions@.len(),
            program@ == ore_program_bytes(),
            deploys@.map_values(|f: FastDeployInfo| fast_view(f)) == fast_deploys(instructions@.take(i as int), key_views(keys@)),
        decreases instructions@.len() - i,
    {
        proof {
            assert(instructions@.take(i + 1).drop_last() =~= instructions@.take(i as int));
            assert(instructions@.take(i + 1).last() == instructions@[i as int]);
        }
        let ghost before = deploys@;
        let found = fast_deploy_of(&instructions[i], &keys, &program);
        match found {
            Some((a, m)) => {
                let info = FastDeployInfo {
                    authority: pubkey_to_string(a),
                    miner: pubkey_to_string(m),
                    ix_index: i as u8,
                };
                deploys.push(info);
                proof {
                    assert(deploys@.map_values(|f: FastDeployInfo| fast_view(f)) =~= before.map_values(
                        |f: FastDeployInfo| fast_view(f)).push(fast_view(info)));
                }
            },
            None => {},
        }
        i = i + 1;
    }
    proof {
        assert(instructions@.take(instructions@.len() as int) =~= instructions@);
    }
    Ok(deploys)
}

/// The quick-scan reading of one outer instruction (see `fast_deploy`).
fn fast_deploy_of(ix: &InstructionJson, keys: &Vec<[u8; 32]>, program: &[u8; 32]) -> (r: Option<([u8; 32], [u8; 32])>)
    requires
        program@ == ore_program_bytes(),
    ensures
        match fast_deploy(*ix, key_views(keys@)) {
            Some((a, m)) => r matches Some((ka, km)) && ka@ == a && km@ == m,
            None => r is None,
        },
{
    let program_index = match ix.program_id_index {
        Some(p) => p as usize,
        None => return None,
    };
    if program_index >= keys.len() {
        return None;
    }
    if !same_key(&keys[program_index], program) {
        return None;
    }
    let data_text = match &ix.data {
        Some(d) => d,
        None => return None,
    };
    let bytes = match base58_decode(data_text.as_str()) {
        Ok(b) => b,
        Err(_) => return None,
    };
    if bytes.len() == 0 || bytes[0] != DEPLOY_TAG || bytes.len() < 1 + DEPLOY_ARGS_SIZE {
        return None;
    }
    let accounts = match &ix.accounts {
        Some(a) => a,
        None => return None,
    };
    match (key_of_account(accounts, keys, 0), key_of_account(accounts, keys, 2)) {
        (Some(a), Some(m)) => Some((a, m)),
        _ => None,
    }
}

} // verus!
