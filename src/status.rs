use vstd::prelude::*;

verus! {

/// Visibility of a collection, stored as its name in both tiers.
#[derive(Clone, Copy, Debug, PartialEq, Eq, Structural)]
pub enum CollectionStatus {
    Listed,
    Unlisted,
    Private,
    Rejected,
    Unknown,
}

/// The name under which a status is stored.
pub open spec fn status_name(s: CollectionStatus) -> Seq<char> {
    match s {
        CollectionStatus::Listed => seq!['l', 'i', 's', 't', 'e', 'd'],
        CollectionStatus::Unlisted => seq!['u', 'n', 'l', 'i', 's', 't', 'e', 'd'],
        CollectionStatus::Private => seq!['p', 'r', 'i', 'v', 'a', 't', 'e'],
        CollectionStatus::Rejected => seq!['r', 'e', 'j', 'e', 'c', 't', 'e', 'd'],
        CollectionStatus::Unknown => seq!['u', 'n', 'k', 'n', 'o', 'w', 'n'],
    }
}

/// The status that a stored name denotes; a name that is none of the
/// known ones reads as `Unknown`.
pub open spec fn status_of_name(n: Seq<char>) -> CollectionStatus {
    if n == status_name(CollectionStatus::Listed) {
        CollectionStatus::Listed
    } else if n == status_name(CollectionStatus::Unlisted) {
        CollectionStatus::Unlisted
    } else if n == status_name(CollectionStatus::Private) {
        CollectionStatus::Private
    } else if n == status_name(CollectionStatus::Rejected) {
        CollectionStatus::Rejected
    } else {
        CollectionStatus::Unknown
    }
}

impl CollectionStatus {
    /// The stored name of this status.
    pub fn as_str(&self) -> (r: &'static str)
        ensures
            r@ == status_name(*self),
    {
        match self {
            CollectionStatus::Listed => {
                proof { reveal_strlit("listed"); }
                "listed"
            },
            CollectionStatus::Unlisted => {
                proof { reveal_strlit("unlisted"); }
                "unlisted"
            },
            CollectionStatus::Private => {
                proof { reveal_strlit("private"); }
                "private"
            },
            CollectionStatus::Rejected => {
                proof { reveal_strlit("rejected"); }
                "rejected"
            },
            CollectionStatus::Unknown => {
                proof { reveal_strlit("unknown"); }
                "unknown"
            },
        }
    }

    /// The stored name of this status, as an owned string.
    pub fn to_string(&self) -> (r: String)
        ensures
            r@ == status_name(*self),
    {
        self.as_str().to_owned()
    }

    /// Reads a stored name back; unknown names give `Unknown`.
    pub fn from_str(s: &str) -> (r: CollectionStatus)
        ensures
            r == status_of_name(s@),
    {
        let given = s.to_owned();
        let candidates = [
            CollectionStatus::Listed,
            CollectionStatus::Unlisted,
            CollectionStatus::Private,
            CollectionStatus::Rejected,
        ];
        let mut i: usize = 0;
        while i < 4
            invariant
                0 <= i <= 4,
                given@ == s@,
                candidates@ == seq![
                    CollectionStatus::Listed,
                    CollectionStatus::Unlisted,
                    CollectionStatus::Private,
                    CollectionStatus::Rejected,
                ],
                forall|j: int| 0 <= j < i ==> s@ != status_name(#[trigger] candidates@[j]),
            decreases 4 - i,
        {
            let name = candidates[i].as_str().to_owned();
            if given == name {
                return candidates[i];
            }
            i = i + 1;
        }
        assert(s@ != status_name(candidates@[0]));
        assert(s@ != status_name(candidates@[1]));
        assert(s@ != status_name(candidates@[2]));
        assert(s@ != status_name(candidates@[3]));
        CollectionStatus::Unknown
    }
}

/// Every status reads back as itself from its stored name.
pub proof fn lemma_status_name_round_trip(s: CollectionStatus)
    ensures
        status_of_name(status_name(s)) == s,
{
    let l = status_name(CollectionStatus::Listed);
    let u = status_name(CollectionStatus::Unlisted);
    let p = status_name(CollectionStatus::Private);
    let r = status_name(CollectionStatus::Rejected);
    let k = status_name(CollectionStatus::Unknown);
    assert(l.len() != u.len() && l.len() != p.len() && l.len() != r.len() && l.len() != k.len());
    assert(u[0] != p[0] && u[1] != r[1] && p[0] != r[0] && u[2] != k[2] && p[0] != k[0]
        && r[0] != k[0]);
}

} // verus!
