//! The closed tag set of relationships, the generation-marker counter and the
//! symbol classifier for generation-zero rows.
//!
//! The name field of a row carries two independent signals: the number of
//! `*` markers gives the person's generation depth, and — for rows without
//! markers — symbolic content picks a non-hierarchical relationship.  The two
//! parses are kept as separate functions over the same raw text.

use vstd::prelude::*;

verus! {

/// The tag on an edge of the family graph.  Edges are directed from the
/// structurally earlier person to the later one; the direction carries no
/// meaning of its own (a `Married` edge is symmetric in meaning).
#[derive(Debug, Clone, Copy, PartialEq, Eq, Structural)]
pub enum Relationship {
    /// Structural descent.
    Child,
    /// Generic generation-preserving kinship where no closer tag applies.
    Relative,
    Married,
    Divorced,
    Dating,
    /// A descendant attached to a partner rather than the main line.
    ChildFromPartner,
    /// Defensive fallback; never produced by a correct build.
    NotFound,
}

/// Whether the character `c` occurs in `s`.
pub open spec fn has_char(s: Seq<char>, c: char) -> bool {
    exists|i: int| 0 <= i < s.len() && s[i] == c
}

/// Whether the three-character pattern `c0 c1 c2` occurs in `s`.
pub open spec fn has_triple(s: Seq<char>, c0: char, c1: char, c2: char) -> bool {
    exists|i: int| 0 <= i && i + 2 < s.len() && #[trigger] s[i] == c0 && s[i + 1] == c1 && s[i + 2] == c2
}

/// The number of generation markers (`*`) in a name field.
pub open spec fn marker_count(s: Seq<char>) -> nat
    decreases s.len(),
{
    if s.len() == 0 {
        0
    } else {
        marker_count(s.drop_last()) + if s.last() == '*' { 1nat } else { 0nat }
    }
}

/// The relationship a marker-less name field denotes.  Precedence: `~` first,
/// then the divorce token `-/-`, then the partner-descendant token `- -`,
/// then a bare `-`; a plain name is a `Relative`.  The two longer tokens are
/// checked before the bare dash so that they are never misread as `Dating`.
pub open spec fn classify(name: Seq<char>) -> Relationship {
    if has_char(name, '~') {
        Relationship::Married
    } else if has_triple(name, '-', '/', '-') {
        Relationship::Divorced
    } else if has_triple(name, '-', ' ', '-') {
        Relationship::ChildFromPartner
    } else if has_char(name, '-') {
        Relationship::Dating
    } else {
        Relationship::Relative
    }
}

/// Scans `s` for the character `c`.
pub fn contains_char(s: &str, c: char) -> (b: bool)
    ensures
        b == has_char(s@, c),
{
    let n: usize = s.unicode_len();
    for i in 0..n
        invariant
            n == s@.len(),
            forall|j: int| 0 <= j < i ==> s@[j] != c,
    {
        if s.get_char(i) == c {
            return true;
        }
    }
    false
}

/// Scans `s` for the three-character pattern `c0 c1 c2`.
pub fn contains_triple(s: &str, c0: char, c1: char, c2: char) -> (b: bool)
    ensures
        b == has_triple(s@, c0, c1, c2),
{
    let n: usize = s.unicode_len();
    if n < 3 {
        return false;
    }
    for i in 0..n - 2
        invariant
            n == s@.len(),
            3 <= n,
            forall|j: int| 0 <= j < i ==> !(#[trigger] s@[j] == c0 && s@[j + 1] == c1 && s@[j + 2] == c2),
    {
        if s.get_char(i) == c0 && s.get_char(i + 1) == c1 && s.get_char(i + 2) == c2 {
            return true;
        }
    }
    false
}

/// Classifies a marker-less name field by its relationship symbols, checking
/// the more specific tokens before the bare dash.
pub fn relation_check(name: &String) -> (r: Relationship)
    ensures
        r == classify(name@),
{
    let s = name.as_str();
    if contains_char(s, '~') {
        Relationship::Married
    } else if contains_triple(s, '-', '/', '-') {
        Relationship::Divorced
    } else if contains_triple(s, '-', ' ', '-') {
        Relationship::ChildFromPartner
    } else if contains_char(s, '-') {
        Relationship::Dating
    } else {
        Relationship::Relative
    }
}

proof fn lemma_marker_count_take_step(s: Seq<char>, i: int)
    requires
        0 <= i < s.len(),
    ensures
        marker_count(s.take(i + 1)) == marker_count(s.take(i)) + if s[i] == '*' { 1nat } else { 0nat },
{
    assert(s.take(i + 1).drop_last() =~= s.take(i));
    assert(s.take(i + 1).last() == s[i]);
}

/// Counts the generation markers (`*`) in a name field.
pub fn count_markers(name: &String) -> (n: usize)
    ensures
        n == marker_count(name@),
        n <= name@.len(),
{
    let s = name.as_str();
    let len: usize = s.unicode_len();
    let mut n: usize = 0;
    for i in 0..len
        invariant
            len == s@.len(),
            s@ == name@,
            n == marker_count(name@.take(i as int)),
            n <= i,
    {
        proof {
            lemma_marker_count_take_step(name@, i as int);
        }
        if s.get_char(i) == '*' {
            n = n + 1;
        }
    }
    proof {
        assert(name@.take(name@.len() as int) =~= name@);
    }
    n
}

} // verus!
