//! Compact block filters.
use crate::types::BlockHash;
use vstd::prelude::*;

verus! {

/// A compact filter of a block.
#[derive(Debug)]
pub struct BlockFilter {
    pub block_hash: BlockHash,
    pub height: u32,
    /// The filter as it travels.
    pub contents: Vec<u8>,
}

/// Whether a filter of these contents matches any of some scripts, as
/// `bitcoin::bip158::BlockFilter::match_any` says. `None` where the contents end too early.
pub uninterp spec fn filter_match(
    block_hash: Seq<u8>,
    contents: Seq<u8>,
    scripts: Seq<Seq<u8>>,
) -> Option<bool>;

/// What the number of scripts in a filter is multiplied by when scripts are looked for in it.
pub const SCRIPT_RANGE: u64 = 784931;

/// The longest contents, in bytes, whose differences surely add up to a number of 64 bits. Each bit of
/// them adds less than 2^20.
pub const MAX_CONTENTS_LENGTH: u64 = 0x100_0000_0000;

/// The number of scripts that the contents begin with, where it is one of more than four bytes: behind
/// a byte of ones, in eight bytes, the lowest first.
pub open spec fn long_count(contents: Seq<u8>) -> nat {
    if contents.len() >= 9 && contents[0] == 0xff {
        crate::tlv::be(contents.subrange(1, 9).reverse())
    } else {
        0
    }
}

/// Whether scripts can be looked for in these contents without an overflow.
pub open spec fn is_searchable(contents: Seq<u8>) -> bool {
    contents.len() <= MAX_CONTENTS_LENGTH && long_count(contents) * SCRIPT_RANGE <= u64::MAX
}

fn read_long_count(contents: &Vec<u8>) -> (count: u128)
    ensures
        count == long_count(contents@),
        count <= u64::MAX,
{
    if contents.len() < 9 || contents[0] != 0xff {
        return 0;
    }
    let bytes: [u8; 8] = [
        contents[8],
        contents[7],
        contents[6],
        contents[5],
        contents[4],
        contents[3],
        contents[2],
        contents[1],
    ];
    assert(bytes@.subrange(0, 8) =~= contents@.subrange(1, 9).reverse());
    proof {
        crate::tlv::lemma_powers();
    }
    crate::tlv::read_be(&bytes, 0, 8)
}

/// Whether a filter matches any of some scripts.
///
/// Calls `bitcoin::bip158::BlockFilter::match_any`, which depends on the hash of the block, the contents
/// and the scripts alone. Without scripts there is no match. It multiplies the number of scripts that
/// the contents begin with by a constant, and adds up the differences that follow: where either
/// overflows, it panics or not as it was built. A number that cannot be read counts as zero.
#[verifier::external_body]
fn match_any(block_hash: &[u8; 32], contents: &Vec<u8>, scripts: &Vec<Vec<u8>>) -> (matched: Option<
    bool,
>)
    requires
        is_searchable(contents@),
    ensures
        matched == filter_match(
            block_hash@,
            contents@,
            crate::chain::scripts::scripts_view(scripts@),
        ),
        scripts@.len() == 0 ==> matched == Some(false),
{
    let hash: bitcoin::BlockHash = bitcoin::hashes::Hash::from_byte_array(*block_hash);
    let filter = bitcoin::bip158::BlockFilter::new(contents);
    filter.match_any(&hash, scripts.iter().map(|script| script.as_slice())).ok()
}

impl BlockFilter {
    /// Whether the filter matches any of some scripts. `None` where it ends too early, or where an
    /// overflow keeps it from being searched.
    pub open spec fn matches(self, scripts: Seq<Seq<u8>>) -> Option<bool> {
        if is_searchable(self.contents@) {
            filter_match(self.block_hash.0@, self.contents@, scripts)
        } else {
            None
        }
    }

    /// Whether the filter matches any of some scripts. `None` where it ends too early, or where an
    /// overflow keeps it from being searched.
    pub fn contains_any(&self, scripts: &Vec<Vec<u8>>) -> (matched: Option<bool>)
        ensures
            matched == self.matches(crate::chain::scripts::scripts_view(scripts@)),
            scripts@.len() == 0 && is_searchable(self.contents@) ==> matched == Some(false),
    {
        if self.contents.len() as u64 > MAX_CONTENTS_LENGTH {
            return None;
        }
        if read_long_count(&self.contents) * (SCRIPT_RANGE as u128) > u64::MAX as u128 {
            return None;
        }
        match_any(&self.block_hash.0, &self.contents, scripts)
    }
}

/// A filter whose first byte says that its count takes eight bytes has that count, its lowest byte first;
/// every other filter is short enough. A filter can be searched as long as 784931 times its count fits in 64
/// bits.
pub proof fn law_filters_with_too_many_scripts_are_not_searched(contents: Seq<u8>)
    ensures
        contents.len() >= 9 && contents[0] == 0xff ==> crate::tlv::be_bytes(
            long_count(contents),
            8,
        ) == contents.subrange(1, 9).reverse(),
        contents.len() < 9 || contents[0] != 0xff ==> long_count(contents) == 0,
        is_searchable(contents) <==> contents.len() <= 0x100_0000_0000 && long_count(contents)
            * 784931 <= u64::MAX,
{
    if contents.len() >= 9 && contents[0] == 0xff {
        crate::tlv::law_be_bytes_round_trip(contents.subrange(1, 9).reverse());
    }
}

/// A filter is matched by its own block, its own contents and all the scripts that are asked for.
pub proof fn law_filters_are_matched_by_their_block(filter: BlockFilter, scripts: Seq<Seq<u8>>)
    ensures
        is_searchable(filter.contents@) ==> filter.matches(scripts) == filter_match(
            filter.block_hash.0@,
            filter.contents@,
            scripts,
        ),
        !is_searchable(filter.contents@) ==> filter.matches(scripts) is None,
{
}

} // verus!
