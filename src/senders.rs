//! Which senders of a channel account are on its allowlist.

use vstd::prelude::*;
use vstd::string::*;

use crate::text::{lower_of, lowercase, str_eq, strings_view};

verus! {

/// Whether a sender, with everything already in lower case, is allowed: an
/// entry equals its peer id or its username.
pub open spec fn allowed_folded(allowlist: Seq<Seq<char>>, peer_id: Seq<char>, username: Option<Seq<char>>) -> bool {
    exists|i: int|
        0 <= i < allowlist.len() && (allowlist[i] == peer_id || username == Some(
            #[trigger] allowlist[i],
        ))
}

/// Whether a sender is allowed, given the allowlist, peer id and username
/// already in lower case.
pub fn sender_allowed_folded(allowlist: &Vec<String>, peer_id: &str, username: Option<&str>) -> (r:
    bool)
    ensures
        r == allowed_folded(strings_view(allowlist@), peer_id@, match username {
            Some(u) => Some(u@),
            None => None,
        }),
{
    let ghost uv = match username {
        Some(u) => Some(u@),
        None => None::<Seq<char>>,
    };
    let mut i: usize = 0;
    while i < allowlist.len()
        invariant
            i <= allowlist.len(),
            uv == (match username {
                Some(u) => Some(u@),
                None => None::<Seq<char>>,
            }),
            forall|j: int|
                0 <= j < i ==> !(strings_view(allowlist@)[j] == peer_id@ || uv == Some(
                    #[trigger] strings_view(allowlist@)[j],
                )),
        decreases allowlist.len() - i,
    {
        let a = allowlist[i].as_str();
        let hit = str_eq(a, peer_id) || match username {
            Some(u) => str_eq(a, u),
            None => false,
        };
        assert(strings_view(allowlist@)[i as int] == allowlist@[i as int]@);
        if hit {
            return true;
        }
        i = i + 1;
    }
    false
}

/// Whether a sender is on the allowlist: an entry equals its peer id or its
/// username, ignoring case.
pub fn sender_allowed(allowlist: &Vec<String>, peer_id: &str, username: Option<&str>) -> (r: bool)
    ensures
        r == allowed_folded(
            strings_view(allowlist@).map_values(|a: Seq<char>| lower_of(a)),
            lower_of(peer_id@),
            match username {
                Some(u) => Some(lower_of(u@)),
                None => None,
            },
        ),
{
    let mut folded: Vec<String> = Vec::new();
    let mut i: usize = 0;
    while i < allowlist.len()
        invariant
            i <= allowlist.len(),
            strings_view(folded@) == strings_view(allowlist@).take(i as int).map_values(
                |a: Seq<char>| lower_of(a),
            ),
        decreases allowlist.len() - i,
    {
        let ghost before = strings_view(folded@);
        let l = lowercase(allowlist[i].as_str());
        assert(strings_view(allowlist@)[i as int] == allowlist@[i as int]@);
        folded.push(l);
        assert(strings_view(folded@) =~= before.push(lower_of(allowlist@[i as int]@)));
        assert(strings_view(folded@) =~= strings_view(allowlist@).take(i as int + 1).map_values(
            |a: Seq<char>| lower_of(a),
        ));
        i = i + 1;
    }
    assert(strings_view(allowlist@).take(allowlist.len() as int) =~= strings_view(allowlist@));
    let peer = lowercase(peer_id);
    match username {
        Some(u) => {
            let user = lowercase(u);
            sender_allowed_folded(&folded, peer.as_str(), Some(user.as_str()))
        },
        None => sender_allowed_folded(&folded, peer.as_str(), None),
    }
}

} // verus!
