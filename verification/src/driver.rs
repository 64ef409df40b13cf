//! What the poll driver decides between its requests: the address to ask,
//! whether a session still stands, what to note of a request and of a merge, and
//! which hosts to ping.

use crate::internet::{parse_ipv4, spec_parse_ipv4};
use crate::session::SessionId;
use crate::text::{spec_split, split, to_chars};
use vstd::prelude::*;
use vstd::string::StringExecFns;

verus! {

/// The address of `path` on the device `domain`, such as
/// `https://fritz.box/data.lua`.
pub fn make_url(domain: &str, path: &str) -> (url: String)
    ensures
        url@ == "https://"@ + domain@ + path@,
{
    let mut url = String::from_str("https://");
    url.append(domain);
    url.append(path);
    url
}

/// A duration in milliseconds as the request table holds it: as it is, or the
/// greatest `i64` where it is greater.
pub fn elapsed_ms(milliseconds: u128) -> (noted: i64)
    ensures
        noted == if milliseconds <= i64::MAX {
            milliseconds as int
        } else {
            i64::MAX as int
        },
{
    if milliseconds <= 0x7fff_ffff_ffff_ffffu128 {
        milliseconds as i64
    } else {
        i64::MAX
    }
}

/// The number of incorporated records as the update table holds it: as it is, or
/// the greatest `i64` where it is greater.
pub fn upserted_rows(incorporated: usize) -> (noted: i64)
    ensures
        noted == if incorporated <= i64::MAX {
            incorporated as int
        } else {
            i64::MAX as int
        },
{
    if incorporated as u128 <= 0x7fff_ffff_ffff_ffffu128 {
        incorporated as i64
    } else {
        i64::MAX
    }
}

/// The session that still stands: the one that the device answered, if it is a
/// session at all and the one that was asked about.
pub fn confirm_session(asked: &SessionId, answered: &SessionId) -> (standing: Option<SessionId>)
    ensures
        standing == if answered.spec_is_valid() && answered.id@ == asked.id@ {
            Some(*answered)
        } else {
            None
        },
{
    if !answered.is_valid() || !answered.same(asked) {
        None
    } else {
        Some(*answered)
    }
}

/// The entry `index` of a list of hosts is no address.
#[derive(Debug, PartialEq, Eq, Structural, Clone, Copy, Hash)]
pub struct BadTarget {
    pub index: usize,
}

/// The addresses that `fields` spell up to the entry `n`, or the first entry that
/// spells none.
pub open spec fn targets_upto(fields: Seq<Seq<char>>, n: int) -> Result<Seq<Seq<u8>>, int>
    decreases n,
{
    if n <= 0 {
        Ok(Seq::empty())
    } else {
        match targets_upto(fields, n - 1) {
            Err(index) => Err(index),
            Ok(targets) => match spec_parse_ipv4(fields[n - 1]) {
                Some(address) => Ok(targets.push(address)),
                None => Err(n - 1),
            },
        }
    }
}

/// The hosts that a list with commas between its entries names, each by its
/// address, or the first entry that is no address.
pub open spec fn spec_ping_targets(s: Seq<char>) -> Result<Seq<Seq<u8>>, int> {
    targets_upto(spec_split(s, ','), spec_split(s, ',').len() as int)
}

/// The first entry that spells no address stays the first.
pub proof fn lemma_first_bad_target(fields: Seq<Seq<char>>, k: int, n: int)
    requires
        k <= n,
        targets_upto(fields, k) is Err,
    ensures
        targets_upto(fields, n) == targets_upto(fields, k),
    decreases n - k,
{
    if k < n {
        lemma_first_bad_target(fields, k, n - 1);
    }
}

/// The bytes of each address of a list.
pub open spec fn address_views(targets: Seq<[u8; 4]>) -> Seq<Seq<u8>> {
    Seq::new(targets.len(), |i: int| targets[i]@)
}

/// Reads the hosts to ping from a list of addresses with commas between them.
pub fn parse_ping_targets(s: &str) -> (targets: Result<Vec<[u8; 4]>, BadTarget>)
    ensures
        match spec_ping_targets(s@) {
            Ok(expected) => targets matches Ok(found) && address_views(found@) == expected,
            Err(index) => targets matches Err(bad) && bad.index == index,
        },
{
    let chars = to_chars(s);
    let fields = split(chars.as_slice(), ',');
    let mut targets: Vec<[u8; 4]> = Vec::new();
    let mut i: usize = 0;
    assert(address_views(Seq::<[u8; 4]>::empty()) =~= Seq::<Seq<u8>>::empty());
    while i < fields.len()
        invariant
            i <= fields@.len(),
            chars@ == s@,
            fields@.len() == spec_split(s@, ',').len(),
            forall|k: int|
                0 <= k < fields@.len() ==> {
                    &&& (#[trigger] fields@[k]).0 <= fields@[k].1 <= chars@.len()
                    &&& chars@.subrange(fields@[k].0 as int, fields@[k].1 as int) == spec_split(
                        s@,
                        ',',
                    )[k]
                },
            targets_upto(spec_split(s@, ','), i as int) == Ok::<Seq<Seq<u8>>, int>(
                address_views(targets@),
            ),
        decreases fields@.len() - i,
    {
        let field = fields[i];
        let part = crate::text::copy_range(chars.as_slice(), field.0, field.1);
        match parse_ipv4(part.as_slice()) {
            Some(address) => {
                let ghost before = targets@;
                targets.push(address);
                assert(address_views(targets@) =~= address_views(before).push(address@));
            },
            None => {
                proof {
                    lemma_first_bad_target(spec_split(s@, ','), i + 1, fields@.len() as int);
                }
                return Err(BadTarget { index: i });
            },
        }
        i += 1;
    }
    Ok(targets)
}

} // verus!
