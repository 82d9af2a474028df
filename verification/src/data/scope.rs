//! The closed set of permissions and their encoding as a bit mask.
//!
//! Every scope owns one bit, fixed by its position in the enumeration. A mask
//! is the union of the bits of a set of scopes, and a granted mask meets a
//! required one when it contains it. Positions are never renumbered: a new
//! scope takes the next free bit.

use crate::utils::text::pieces;
use vstd::prelude::*;

verus! {

/// A named permission on a user's profile.
#[derive(Clone, Copy, Debug, PartialEq, Eq, Structural)]
pub enum Scope {
    ProfileRead,
    ProfileWrite,
}

/// The mask with the bit of every scope that exists.
pub const ALL_SCOPES: u16 = 3;

impl Scope {
    /// The position of the scope's bit.
    pub open spec fn position(self) -> nat {
        match self {
            Scope::ProfileRead => 0,
            Scope::ProfileWrite => 1,
        }
    }

    /// The mask that holds the scope's bit and no other.
    pub open spec fn bit(self) -> u16 {
        1u16 << self.position()
    }

    /// The mask that holds the scope's bit and no other.
    pub fn mask(self) -> (m: u16)
        ensures
            m == self.bit(),
    {
        proof {
            lemma_bits();
        }
        match self {
            Scope::ProfileRead => 1,
            Scope::ProfileWrite => 2,
        }
    }
}

/// The mask of a set of scopes: the union of its members' bits.
pub open spec fn encode(s: Set<Scope>) -> u16 {
    (if s.contains(Scope::ProfileRead) {
        Scope::ProfileRead.bit()
    } else {
        0u16
    }) | (if s.contains(Scope::ProfileWrite) {
        Scope::ProfileWrite.bit()
    } else {
        0u16
    })
}

/// Whether a granted mask contains every bit of a required one.
pub open spec fn contains_mask(granted: u16, required: u16) -> bool {
    granted & required == required
}

/// The two bits, as numbers.
pub proof fn lemma_bits()
    ensures
        Scope::ProfileRead.bit() == 1,
        Scope::ProfileWrite.bit() == 2,
{
    assert(1u16 << 0nat == 1) by (bit_vector);
    assert(1u16 << 1nat == 2) by (bit_vector);
}

/// The mask of a single scope is its bit.
pub proof fn lemma_encode_single(x: Scope)
    ensures
        encode(set![x]) == x.bit(),
{
    lemma_bits();
    assert(set![x].contains(x));
    assert(1u16 | 0u16 == 1 && 0u16 | 2u16 == 2) by (bit_vector);
}

/// Joining a bit to a mask that is built of it or lacks it.
proof fn lemma_join(read: u16, write: u16, bit: u16)
    by (bit_vector)
    requires
        bit == 1 || bit == 2,
        read == 0 || read == 1,
        write == 0 || write == 2,
    ensures
        bit == 1 ==> (read | write) | bit == 1 | write,
        bit == 2 ==> (read | write) | bit == read | 2,
{
}

/// Adding a scope to a set adds its bit to the mask.
pub proof fn lemma_encode_insert(s: Set<Scope>, x: Scope)
    ensures
        encode(s.insert(x)) == encode(s) | x.bit(),
{
    lemma_bits();
    let read: u16 = if s.contains(Scope::ProfileRead) {
        1
    } else {
        0
    };
    let write: u16 = if s.contains(Scope::ProfileWrite) {
        2
    } else {
        0
    };
    lemma_join(read, write, x.bit());
}

/// The mask of a list of scopes. A scope named twice counts once.
pub fn scopes(s: &[Scope]) -> (result: u16)
    ensures
        result == encode(s@.to_set()),
{
    let mut result: u16 = 0;
    let mut i: usize = 0;
    proof {
        lemma_bits();
        assert(s@.take(0).to_set() =~= Set::<Scope>::empty());
        assert(0u16 | 0u16 == 0) by (bit_vector);
    }
    while i < s.len()
        invariant
            i <= s.len(),
            result == encode(s@.take(i as int).to_set()),
        decreases s.len() - i,
    {
        proof {
            let before = s@.take(i as int);
            let after = s@.take(i + 1);
            assert(after =~= before.push(s@[i as int]));
            before.lemma_push_to_set_commute(s@[i as int]);
            lemma_encode_insert(before.to_set(), s@[i as int]);
        }
        result = result | s[i].mask();
        i += 1;
    }
    proof {
        assert(s@.take(s@.len() as int) =~= s@);
    }
    result
}

/// Whether a token granted `granted` may enter where `required` is asked:
/// containment, not equality.
pub fn satisfies(granted: u16, required: u16) -> (ok: bool)
    ensures
        ok == contains_mask(granted, required),
{
    granted & required == required
}

/// A union of two parts contains a union of parts of them.
proof fn lemma_parts_contained(read: u16, write: u16, less_read: u16, less_write: u16)
    by (bit_vector)
    requires
        less_read == 0 || less_read == read,
        less_write == 0 || less_write == write,
    ensures
        (read | write) & (less_read | less_write) == (less_read | less_write),
{
}

/// A union that lacks a bit does not contain a union that has it.
proof fn lemma_part_missing(read: u16, write: u16, more_read: u16, more_write: u16)
    by (bit_vector)
    requires
        read == 0 || read == 1,
        write == 0 || write == 2,
        more_read == 0 || more_read == 1,
        more_write == 0 || more_write == 2,
        (read == 0 && more_read == 1) || (write == 0 && more_write == 2),
    ensures
        (read | write) & (more_read | more_write) != (more_read | more_write),
{
}

/// The part that a scope adds to the mask of a set: its bit if the set has
/// it, nothing if not.
spec fn part(s: Set<Scope>, x: Scope) -> u16 {
    if s.contains(x) {
        x.bit()
    } else {
        0
    }
}

/// A token granted the scopes of `b` meets a requirement of the scopes of `a`
/// whenever `a` is a subset of `b`.
pub proof fn lemma_superset_satisfies(a: Set<Scope>, b: Set<Scope>)
    requires
        a.subset_of(b),
    ensures
        contains_mask(encode(b), encode(a)),
{
    assert(a.contains(Scope::ProfileRead) ==> b.contains(Scope::ProfileRead));
    assert(a.contains(Scope::ProfileWrite) ==> b.contains(Scope::ProfileWrite));
    lemma_parts_contained(
        part(b, Scope::ProfileRead),
        part(b, Scope::ProfileWrite),
        part(a, Scope::ProfileRead),
        part(a, Scope::ProfileWrite),
    );
}

/// A token granted the scopes of `a` does not meet a requirement of the scopes
/// of `b` when `b` holds a scope that `a` lacks.
pub proof fn lemma_missing_scope_refused(a: Set<Scope>, b: Set<Scope>)
    requires
        !b.subset_of(a),
    ensures
        !contains_mask(encode(a), encode(b)),
{
    lemma_bits();
    let x = choose|x: Scope| b.contains(x) && !a.contains(x);
    assert(b.contains(x) && !a.contains(x));
    lemma_part_missing(
        part(a, Scope::ProfileRead),
        part(a, Scope::ProfileWrite),
        part(b, Scope::ProfileRead),
        part(b, Scope::ProfileWrite),
    );
}

/// The scope that a name stands for: `profile.read` and `profile.write` are
/// the names there are.
pub open spec fn named(name: Seq<char>) -> Option<Scope> {
    if name == "profile.read"@ {
        Some(Scope::ProfileRead)
    } else if name == "profile.write"@ {
        Some(Scope::ProfileWrite)
    } else {
        None
    }
}

/// The scope a name stands for, as a list of one or none.
pub open spec fn recognized(name: Seq<char>) -> Seq<Scope> {
    match named(name) {
        Some(scope) => seq![scope],
        None => Seq::empty(),
    }
}

/// The scopes that a list of names stands for, in the order of the names.
/// Names that stand for no scope are passed over.
pub open spec fn named_all(names: Seq<Seq<char>>) -> Seq<Scope>
    decreases names.len(),
{
    if names.len() == 0 {
        Seq::empty()
    } else {
        named_all(names.drop_last()) + recognized(names.last())
    }
}

/// The scopes named in a text of names with single spaces between them.
pub open spec fn requested(list: Seq<char>) -> Seq<Scope> {
    named_all(pieces(list, ' '))
}

impl Scope {
    /// The scope that a name stands for.
    pub fn from_name(name: &String) -> (scope: Option<Scope>)
        ensures
            scope == named(name@),
    {
        if *name == "profile.read".to_owned() {
            Some(Scope::ProfileRead)
        } else if *name == "profile.write".to_owned() {
            Some(Scope::ProfileWrite)
        } else {
            None
        }
    }

    /// The name that stands for the scope.
    pub fn name(self) -> (name: &'static str)
        ensures
            named(name@) == Some(self),
    {
        proof {
            reveal_strlit("profile.read");
            reveal_strlit("profile.write");
            assert("profile.read"@.len() != "profile.write"@.len());
        }
        match self {
            Scope::ProfileRead => "profile.read",
            Scope::ProfileWrite => "profile.write",
        }
    }
}

/// Reads a space-separated list of scope names. A name that stands for no
/// scope is dropped without complaint.
pub fn parse_scopes(list: &str) -> (found: Vec<Scope>)
    ensures
        found@ == requested(list@),
{
    broadcast use vstd::string::axiom_spec_iter;

    let mut found: Vec<Scope> = Vec::new();
    let mut piece = String::new();
    proof {
        assert(list@.take(0) =~= Seq::<char>::empty());
        assert(pieces(list@.take(0), ' ').drop_last() =~= Seq::<Seq<char>>::empty());
    }
    for c in it: list.chars()
        invariant
            it.seq() == list@,
            pieces(list@.take(it.index()), ' ').len() > 0,
            found@ == named_all(pieces(list@.take(it.index()), ' ').drop_last()),
            piece@ == pieces(list@.take(it.index()), ' ').last(),
    {
        let ghost so_far = pieces(list@.take(it.index()), ' ');
        let ghost next = pieces(list@.take(it.index() + 1), ' ');
        proof {
            assert(list@.take(it.index() + 1).drop_last() =~= list@.take(it.index()));
        }
        if c == ' ' {
            match Scope::from_name(&piece) {
                Some(scope) => {
                    found.push(scope);
                },
                None => {},
            }
            piece = String::new();
            proof {
                assert(next.drop_last() =~= so_far);
            }
        } else {
            piece.push(c);
            proof {
                assert(next.drop_last() =~= so_far.drop_last());
            }
        }
    }
    proof {
        assert(list@.take(list@.len() as int) =~= list@);
    }
    match Scope::from_name(&piece) {
        Some(scope) => {
            found.push(scope);
        },
        None => {},
    }
    found
}

} // verus!
