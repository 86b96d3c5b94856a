//! The on-chain accounts that the service reads, held as plain values, and
//! the calls into the ORE program's own crate that interpret them.

use vstd::prelude::*;

verus! {

/// Number of squares on the board.
pub const BOARD_SQUARES: usize = 25;

/// A Round account as this service reads it.
pub struct RoundAccount {
    pub id: u64,
    /// SOL deployed on each square.
    pub deployed: [u64; 25],
    /// Number of miners on each square.
    pub count: [u64; 25],
    /// Entropy; all zeros until the round is settled.
    pub slot_hash: [u8; 32],
    pub expires_at: u64,
    /// ORE paid out as the motherlode (zero when it was not hit).
    pub motherlode: u64,
    /// Base58 key of the top miner (the default key until it is chosen).
    pub top_miner: String,
    pub top_miner_reward: u64,
    pub total_deployed: u64,
    pub total_vaulted: u64,
    pub total_winnings: u64,
    pub total_miners: u64,
}

/// A Miner account as this service reads it.
pub struct MinerAccount {
    /// Base58 key of the miner's authority.
    pub authority: String,
    pub deployed: [u64; 25],
    /// SOL deployed on each square before this miner's deployment.
    pub cumulative: [u64; 25],
    pub checkpoint_fee: u64,
    pub checkpoint_id: u64,
    pub last_claim_ore_at: i64,
    pub last_claim_sol_at: i64,
    /// Raw bits of the miner's rewards factor (a signed 80.48 fixed-point number).
    pub rewards_factor_bits: i128,
    pub rewards_sol: u64,
    pub rewards_ore: u64,
    pub refined_ore: u64,
    pub round_id: u64,
    pub lifetime_rewards_sol: u64,
    pub lifetime_rewards_ore: u64,
}

/// The Treasury account as this service reads it.
pub struct TreasuryAccount {
    pub balance: u64,
    pub motherlode: u64,
    /// Raw bits of the treasury's miner rewards factor (80.48 fixed point).
    pub miner_rewards_factor_bits: i128,
    pub total_staked: u64,
    pub total_unclaimed: u64,
    pub total_refined: u64,
}

/// The Board account as this service reads it.
pub struct BoardAccount {
    pub round_id: u64,
    pub start_slot: u64,
    pub end_slot: u64,
}

/// The little-endian value of the eight bytes of `s` starting at `o`.
pub open spec fn le_u64_at(s: Seq<u8>, o: int) -> u64 {
    (s[o] as int + 0x100 * s[o + 1] + 0x1_0000 * s[o + 2] + 0x100_0000 * s[o + 3] + 0x1_0000_0000
        * s[o + 4] + 0x100_0000_0000 * s[o + 5] + 0x1_0000_0000_0000 * s[o + 6]
        + 0x100_0000_0000_0000 * s[o + 7]) as u64
}

/// The little-endian value of the four bytes of `s` starting at `o`.
pub open spec fn le_u32_at(s: Seq<u8>, o: int) -> u32 {
    (s[o] as int + 0x100 * s[o + 1] + 0x1_0000 * s[o + 2] + 0x100_0000 * s[o + 3]) as u32
}

/// The round's random value: the XOR of the four little-endian words of the
/// slot hash, or nothing while the hash is all zeros or all ones.
pub open spec fn slot_hash_rng(h: Seq<u8>) -> Option<u64> {
    if (forall|i: int| 0 <= i < 32 ==> h[i] == 0u8) || (forall|i: int| 0 <= i < 32 ==> h[i] == 0xffu8) {
        None
    } else {
        Some(le_u64_at(h, 0) ^ le_u64_at(h, 8) ^ le_u64_at(h, 16) ^ le_u64_at(h, 24))
    }
}

/// Whether the ORE program splits the top-miner reward among all winners
/// when `winning_square` wins in round `round_id`.
pub uninterp spec fn split_reward(round_id: u64, winning_square: u64) -> bool;

/// The low `n` bits of `x` in reverse order: bit `i` of `x` becomes bit
/// `n - 1 - i`.
pub open spec fn reversed_low_bits(x: u64, n: nat) -> u64
    decreases n,
{
    if n == 0 {
        0
    } else {
        ((x & 1) << ((n - 1) as u64)) | reversed_low_bits(x >> 1, (n - 1) as nat)
    }
}

/// The bit-reversed value of `x` (`u64::reverse_bits`).
pub open spec fn bit_reversal(x: u64) -> u64 {
    reversed_low_bits(x, 64)
}

/// The base58 text of a 32-byte public key.
pub uninterp spec fn pubkey_text(bytes: Seq<u8>) -> Seq<char>;

/// The 32 bytes that a base58 public key text decodes to, if it is one.
pub uninterp spec fn parsed_pubkey(text: Seq<char>) -> Option<Seq<u8>>;

/// `Round::rng` of the ORE program on a round with this slot hash; it reads
/// the slot hash alone. The contract restates the function's few lines.
#[verifier::external_body]
pub(crate) fn round_rng(slot_hash: [u8; 32]) -> (r: Option<u64>)
    ensures
        r == slot_hash_rng(slot_hash@),
{
    let mut round: ore_api::state::Round = bytemuck::Zeroable::zeroed();
    round.slot_hash = slot_hash;
    round.rng()
}

/// `Round::is_split_reward` of the ORE program; it depends on the round id
/// and the winning square alone (through the round's distribution mask).
#[verifier::external_body]
pub(crate) fn round_is_split_reward(round_id: u64, winning_square: u64) -> (split: bool)
    requires
        winning_square < 25,
    ensures
        split == split_reward(round_id, winning_square),
{
    let mut round: ore_api::state::Round = bytemuck::Zeroable::zeroed();
    round.id = round_id;
    round.is_split_reward(winning_square as usize)
}

/// `Round::top_miner_sample` of the ORE program: zero when nothing was
/// deployed on the winning square, otherwise the bit-reversed random value
/// modulo the amount deployed there.
#[verifier::external_body]
pub(crate) fn round_top_miner_sample(rng: u64, square_total: u64) -> (sample: u64)
    ensures
        square_total == 0 ==> sample == 0,
        square_total > 0 ==> sample == bit_reversal(rng) % square_total,
{
    let mut round: ore_api::state::Round = bytemuck::Zeroable::zeroed();
    round.deployed[0] = square_total;
    round.top_miner_sample(rng, 0)
}

/// The little-endian value of eight bytes.
pub(crate) fn u64_from_le_bytes(bytes: [u8; 8]) -> (v: u64)
    ensures
        v == le_u64_at(bytes@, 0),
{
    let b0 = bytes[0] as u64;
    let b1 = bytes[1] as u64;
    let b2 = bytes[2] as u64;
    let b3 = bytes[3] as u64;
    let b4 = bytes[4] as u64;
    let b5 = bytes[5] as u64;
    let b6 = bytes[6] as u64;
    let b7 = bytes[7] as u64;
    b0 + 0x100 * b1 + 0x1_0000 * b2 + 0x100_0000 * b3 + 0x1_0000_0000 * b4 + 0x100_0000_0000 * b5
        + 0x1_0000_0000_0000 * b6 + 0x100_0000_0000_0000 * b7
}

/// The little-endian value of four bytes.
pub(crate) fn u32_from_le_bytes(bytes: [u8; 4]) -> (v: u32)
    ensures
        v == le_u32_at(bytes@, 0),
{
    let b0 = bytes[0] as u32;
    let b1 = bytes[1] as u32;
    let b2 = bytes[2] as u32;
    let b3 = bytes[3] as u32;
    b0 + 0x100 * b1 + 0x1_0000 * b2 + 0x100_0000 * b3
}

/// The base58 text of a public key (`Pubkey`'s `Display`).
#[verifier::external_body]
pub(crate) fn pubkey_to_string(bytes: [u8; 32]) -> (s: String)
    ensures
        s@ == pubkey_text(bytes@),
{
    steel::Pubkey::new_from_array(bytes).to_string()
}

/// `Pubkey::from_str`: the key that a base58 text denotes, if any.
#[verifier::external_body]
pub(crate) fn parse_pubkey(text: &str) -> (r: Option<[u8; 32]>)
    ensures
        r matches Some(b) ==> parsed_pubkey(text@) == Some(b@),
        r is None ==> parsed_pubkey(text@) is None,
{
    match text.parse::<steel::Pubkey>() {
        Ok(pk) => Some(pk.to_bytes()),
        Err(_) => None,
    }
}

/// The 32 bytes of the ORE program's address (base58
/// `oreV3EG1i9BEgiAJ8b177Z2S2rMarzak4NMv1kULvWv`).
pub open spec fn ore_program_bytes() -> Seq<u8> {
    seq![12u8, 0, 218, 56, 205, 148, 79, 95, 157, 57, 234, 175, 167, 180, 108, 229,
        43, 215, 237, 195, 185, 162, 118, 164, 114, 44, 46, 42, 174, 52, 137, 67]
}

/// The address of the ORE program account of round `round_id`.
pub uninterp spec fn round_address(round_id: u64) -> Seq<u8>;

/// `ore_api::ID`: the ORE program's address, which the crate declares as the
/// base58 text above.
#[verifier::external_body]
pub(crate) fn ore_program_id() -> (id: [u8; 32])
    ensures
        id@ == ore_program_bytes(),
{
    ore_api::ID.to_bytes()
}

/// `ore_api::state::round_pda`: the program-derived address of a round's
/// account, from the seeds `round` and the id's little-endian bytes. It
/// depends on the id alone. The search for a bump seed that it makes can in
/// principle panic when no seed gives an address off the curve; nothing
/// here rules that out.
#[verifier::external_body]
pub(crate) fn round_pda_key(round_id: u64) -> (key: [u8; 32])
    ensures
        key@ == round_address(round_id),
{
    ore_api::state::round_pda(round_id).0.to_bytes()
}

} // verus!
