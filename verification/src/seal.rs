//! Sealing a captured session: its receipts are chained again from their
//! events before the pack is built.
use vstd::prelude::*;
use crate::chain::{linked, HashChain, Receipt};

verus! {

/// A session must be named: `"session name must not be empty"` otherwise.
pub fn check_session_name(session: &str) -> (res: Result<(), String>)
    ensures
        res is Ok <==> session@.len() > 0,
        res matches Err(m) ==> m@ == "session name must not be empty"@,
{
    if session.unicode_len() == 0 {
        return Err("session name must not be empty".to_owned());
    }
    Ok(())
}

/// Append the event of every stored receipt, in order, to a fresh hash
/// chain (the stored hashes and links are not trusted: they are computed
/// anew). A session without receipts cannot be sealed: `"session has no
/// events to seal"`.
pub fn rebuild_chain(receipts: Vec<Receipt>) -> (res: Result<HashChain, String>)
    ensures
        res is Err <==> receipts@.len() == 0,
        res matches Err(m) ==> m@ == "session has no events to seal"@,
        res matches Ok(c) ==> c.receipts_seq().len() == receipts@.len() && linked(c.receipts_seq())
            && forall|i: int|
            0 <= i < receipts@.len() ==> (#[trigger] c.receipts_seq()[i]).event == receipts@[i].event,
{
    let ghost all = receipts@;
    let mut chain = HashChain::new();
    for receipt in it: receipts.into_iter()
        invariant
            it.seq() == all,
            linked(chain.receipts_seq()),
            chain.receipts_seq().len() == it.index(),
            forall|k: int|
                0 <= k < it.index() ==> (#[trigger] chain.receipts_seq()[k]).event == all[k].event,
    {
        let ghost before = chain.receipts_seq();
        let _ = chain.append(receipt.event);
        assert forall|k: int| 0 <= k < it.index() implies (#[trigger] chain.receipts_seq()[k]).event
            == all[k].event by {
            assert(chain.receipts_seq()[k] == chain.receipts_seq().drop_last()[k]);
        }
    }
    if chain.is_empty() {
        return Err("session has no events to seal".to_owned());
    }
    Ok(chain)
}

/// Where a sealed pack is written when no output path is given:
/// `<session>.aletheia.json`.
pub fn default_pack_path(session: &str) -> (res: String)
    ensures
        res@ == session@ + ".aletheia.json"@,
{
    let mut path = session.to_owned();
    path.append(".aletheia.json");
    path
}

} // verus!
