//! The list of repositories to look at, each written `user/repo`.

use vstd::prelude::*;
use crate::text::split_once;

verus! {

/// An entry of the list that is not in `user/repo` form.
pub struct NotUserRepo {
    /// The entry as it was written.
    pub entry: String,
}

impl NotUserRepo {
    /// The error's message: `` `{entry}` is not in `user/repo` form.``
    pub fn message(&self) -> (m: String)
        ensures
            m@ == "`"@ + self.entry@ + "` is not in `user/repo` form."@,
    {
        let mut m = "`".to_owned();
        m.append(self.entry.as_str());
        m.append("` is not in `user/repo` form.");
        m
    }
}

/// `pair` is `entry` split at its first `/`.
pub open spec fn splits_into(entry: Seq<char>, pair: [String; 2]) -> bool {
    &&& entry == pair[0]@ + seq!['/'] + pair[1]@
    &&& !pair[0]@.contains('/')
}

/// Splits `user/repo` at the first `/`.
pub fn split_user_repo(entry: &str) -> (r: Result<[String; 2], NotUserRepo>)
    ensures
        r is Ok <==> entry@.contains('/'),
        r matches Ok(pair) ==> splits_into(entry@, pair),
        r matches Err(e) ==> e.entry@ == entry@,
{
    match split_once(entry, '/') {
        Some((user, repo)) => Ok([user, repo]),
        None => Err(NotUserRepo { entry: entry.to_owned() }),
    }
}

/// Splits each entry of `repos` into `[user, repo]`; the first entry that
/// holds no `/` is the error.
pub fn parse_list(repos: &Vec<String>) -> (r: Result<Vec<[String; 2]>, NotUserRepo>)
    ensures
        r is Ok <==> forall|i: int| 0 <= i < repos@.len() ==> (#[trigger] repos@[i])@.contains('/'),
        r matches Ok(list) ==> list@.len() == repos@.len() && forall|i: int|
            0 <= i < repos@.len() ==> splits_into((#[trigger] repos@[i])@, list@[i]),
        r matches Err(e) ==> exists|i: int|
            0 <= i < repos@.len() && !(#[trigger] repos@[i])@.contains('/') && e.entry@
                == repos@[i]@ && forall|j: int|
                0 <= j < i ==> (#[trigger] repos@[j])@.contains('/'),
{
    let mut list: Vec<[String; 2]> = Vec::new();
    let n = repos.len();
    for i in 0..n
        invariant
            n == repos@.len(),
            list@.len() == i,
            forall|k: int| 0 <= k < i ==> (#[trigger] repos@[k])@.contains('/'),
            forall|k: int| 0 <= k < i ==> splits_into((#[trigger] repos@[k])@, list@[k]),
    {
        match split_user_repo(repos[i].as_str()) {
            Ok(pair) => list.push(pair),
            Err(e) => {
                assert(!repos@[i as int]@.contains('/'));
                return Err(e);
            },
        }
    }
    Ok(list)
}

} // verus!
